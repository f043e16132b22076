//! Programs for the caller to run.

use vstd::prelude::*;
use vstd::string::*;

use crate::registry::{install_dir, install_path};
use crate::text::texts;

verus! {

/// A program to run, with its arguments.
#[derive(Debug, PartialEq, Eq)]
pub struct Command {
    pub program: String,
    pub args: Vec<String>,
}

impl View for Command {
    type V = (Seq<char>, Seq<Seq<char>>);

    open spec fn view(&self) -> (Seq<char>, Seq<Seq<char>>) {
        (self.program@, texts(self.args@))
    }
}

/// The command that asks the runtime of `version` to print the value of the
/// R expression `expression`.
pub open spec fn r_query(version: Seq<char>, expression: Seq<char>) -> (
    Seq<char>,
    Seq<Seq<char>>,
) {
    (install_path(version) + "\\bin\\R.exe"@, seq!["--vanilla"@, "-s"@, "-e"@, expression])
}

/// Builds the command that asks the runtime of `version` for the value of an
/// R expression.
pub fn r_command(version: &str, expression: &str) -> (command: Command)
    ensures
        command@ == r_query(version@, expression@),
{
    let mut program = install_dir(version);
    program.append("\\bin\\R.exe");
    let mut args: Vec<String> = Vec::new();
    args.push(String::from_str("--vanilla"));
    args.push(String::from_str("-s"));
    args.push(String::from_str("-e"));
    args.push(String::from_str(expression));
    assert(texts(args@) =~= seq!["--vanilla"@, "-s"@, "-e"@, expression@]);
    Command { program, args }
}

} // verus!
