//! The user library of an installed version.
//!
//! Only the runtime knows where its user library lies, so each version is
//! asked. For every version in turn the caller runs the query that
//! [`system_create_lib`] hands out, reports what the runtime printed, probes
//! the directory that this names, and creates it unless it is there. A
//! directory that exists is no error.

use vstd::prelude::*;
use vstd::string::*;

use crate::command::{r_command, r_query, Command};
use crate::error::{Error, ErrorModel};
use crate::registry::is_installed;
use crate::text::texts;

verus! {

/// What the caller reports while user libraries are created.
#[derive(Debug, PartialEq, Eq)]
pub enum LibraryEvent {
    /// The work begins, or the last version is done with.
    Ready,
    /// The runtime answered the query; holds what it printed.
    Reported(String),
    /// The directory `path` was probed; `exists` says whether it is there.
    Probed { path: String, exists: bool },
}

/// What the caller is to do next.
#[derive(Debug, PartialEq, Eq)]
pub enum LibraryStep {
    /// Run `command`, which makes the runtime of `version` print where its
    /// user library lies.
    Query { version: String, command: Command },
    /// Find out whether this directory exists.
    Probe(String),
    /// Create this directory with all its parents; the version is then done
    /// with.
    Create(String),
    /// The directory is there already; the version is done with.
    Keep(String),
    /// Every version has been gone through.
    Done,
    /// Give up with this error.
    Failed(Error),
}

/// The mathematical value of a [`LibraryEvent`].
pub enum LibraryEventModel {
    Ready,
    Reported(Seq<char>),
    Probed { path: Seq<char>, exists: bool },
}

/// The mathematical value of a [`LibraryStep`].
pub enum LibraryStepModel {
    Query { version: Seq<char>, command: (Seq<char>, Seq<Seq<char>>) },
    Probe(Seq<char>),
    Create(Seq<char>),
    Keep(Seq<char>),
    Done,
    Failed(ErrorModel),
}

impl View for LibraryEvent {
    type V = LibraryEventModel;

    open spec fn view(&self) -> LibraryEventModel {
        match self {
            LibraryEvent::Ready => LibraryEventModel::Ready,
            LibraryEvent::Reported(printed) => LibraryEventModel::Reported(printed@),
            LibraryEvent::Probed { path, exists } => LibraryEventModel::Probed {
                path: path@,
                exists: *exists,
            },
        }
    }
}

impl View for LibraryStep {
    type V = LibraryStepModel;

    open spec fn view(&self) -> LibraryStepModel {
        match self {
            LibraryStep::Query { version, command } => LibraryStepModel::Query {
                version: version@,
                command: command@,
            },
            LibraryStep::Probe(path) => LibraryStepModel::Probe(path@),
            LibraryStep::Create(path) => LibraryStepModel::Create(path@),
            LibraryStep::Keep(path) => LibraryStepModel::Keep(path@),
            LibraryStep::Done => LibraryStepModel::Done,
            LibraryStep::Failed(error) => LibraryStepModel::Failed(error@),
        }
    }
}

/// The characters of an optional list of strings.
pub open spec fn option_texts(list: Option<Vec<String>>) -> Option<Seq<Seq<char>>> {
    match list {
        Some(list) => Some(texts(list@)),
        None => None,
    }
}

/// The versions to go through: those that were asked for, or every installed
/// version where none was named.
pub open spec fn library_versions(
    asked: Option<Seq<Seq<char>>>,
    installed: Seq<Seq<char>>,
) -> Seq<Seq<char>> {
    match asked {
        Some(versions) => versions,
        None => installed,
    }
}

/// The step that takes up the version at `position`.
pub open spec fn library_turn(
    asked: Option<Seq<Seq<char>>>,
    installed: Seq<Seq<char>>,
    position: int,
) -> LibraryStepModel {
    let versions = library_versions(asked, installed);
    if position < 0 || position >= versions.len() {
        LibraryStepModel::Done
    } else if !installed.contains(versions[position]) {
        LibraryStepModel::Failed(ErrorModel::NotInstalled(versions[position]))
    } else {
        LibraryStepModel::Query {
            version: versions[position],
            command: r_query(versions[position], "cat(Sys.getenv('R_LIBS_USER'))"@),
        }
    }
}

/// What is done about the directory `path` once it is known whether it
/// exists.
pub open spec fn probed_step(path: Seq<char>, exists: bool) -> LibraryStepModel {
    if exists {
        LibraryStepModel::Keep(path)
    } else {
        LibraryStepModel::Create(path)
    }
}

/// `step` is the answer to `event` when `position` versions are done with.
/// Every event has one answer, but for the home directory that a leading `~`
/// in what a runtime reports stands for.
pub open spec fn library_step(
    asked: Option<Seq<Seq<char>>>,
    installed: Seq<Seq<char>>,
    position: int,
    event: LibraryEventModel,
    step: LibraryStepModel,
) -> bool {
    match event {
        LibraryEventModel::Ready => step == library_turn(asked, installed, position),
        LibraryEventModel::Reported(printed) => step matches LibraryStepModel::Probe(path)
            && names_library(printed, path),
        LibraryEventModel::Probed { path, exists } => step == probed_step(path, exists),
    }
}

/// A leading `~` of `path` stands for the home directory: `path` is `~`
/// alone, or `~` is followed by a path separator.
pub open spec fn tilde_leads(path: Seq<char>) -> bool {
    path.len() > 0 && path[0] == '~' && (path.len() == 1 || path[1] == '/' || path[1] == '\\')
}

/// `path` is what `printed` names once a leading `~` stands for the home
/// directory, whatever that directory is: without a leading `~` the two are
/// equal, and with one, `path` ends with what follows the `~`.
pub open spec fn names_library(printed: Seq<char>, path: Seq<char>) -> bool {
    if tilde_leads(printed) {
        printed.skip(1).is_suffix_of(path)
    } else {
        path == printed
    }
}

/// Calls `shellexpand::tilde`, which replaces a leading `~` by the home
/// directory of the user.
///
/// Believed, not proved: a path in which no `~` leads comes back unchanged;
/// of any other path, what follows the `~` comes back unchanged, behind
/// whatever the host gave for the `~` (the `~` itself where it knows no home
/// directory, and on hosts where `\` is no separator).
#[verifier::external_body]
fn expand_tilde(path: &str) -> (expanded: String)
    ensures
        !tilde_leads(path@) ==> expanded@ == path@,
        tilde_leads(path@) ==> path@.skip(1).is_suffix_of(expanded@),
{
    shellexpand::tilde(path).into_owned()
}

/// Builds the command that asks the runtime of `version` where its user
/// library lies.
pub fn library_query(version: &str) -> (command: Command)
    ensures
        command@ == r_query(version@, "cat(Sys.getenv('R_LIBS_USER'))"@),
{
    r_command(version, "cat(Sys.getenv('R_LIBS_USER'))")
}

/// Turns what a runtime printed for its user library into the path of that
/// directory, with a leading `~` replaced by the home directory.
///
/// What the `~` stands for is known to the host only. Whatever it is, a path
/// in which no `~` leads is returned as it is, and of any other path, what
/// follows the `~` is kept.
pub fn library_dir(printed: &str) -> (path: String)
    ensures
        names_library(printed@, path@),
{
    expand_tilde(printed)
}

/// Decides what to do about a user library that was probed: create it where
/// it is missing, keep it where it exists.
pub fn library_action(path: String, exists: bool) -> (step: LibraryStep)
    ensures
        step@ == probed_step(path@, exists),
{
    if exists {
        LibraryStep::Keep(path)
    } else {
        LibraryStep::Create(path)
    }
}

/// Decides the next step while user libraries are created.
///
/// `asked` names the versions, or is `None` for every installed version;
/// `installed` is the registry as it is now; `position` counts the versions
/// that are done with; `event` is what happened last.
///
/// On `Ready` the version at `position` is taken up: the step is `Query`
/// for it, or `Done` behind the last version. What the runtime reports is
/// turned into the directory to probe, and a probed directory is created
/// where it is missing and kept where it exists.
///
/// # Errors
///
/// The step is `Failed` with `NotInstalled` where the version to take up is
/// not in the registry.
pub fn system_create_lib(
    asked: &Option<Vec<String>>,
    installed: &Vec<String>,
    position: usize,
    event: LibraryEvent,
) -> (step: LibraryStep)
    ensures
        library_step(option_texts(*asked), texts(installed@), position as int, event@, step@),
{
    match event {
        LibraryEvent::Reported(printed) => LibraryStep::Probe(library_dir(printed.as_str())),
        LibraryEvent::Probed { path, exists } => library_action(path, exists),
        LibraryEvent::Ready => {
            let versions = match asked {
                Some(versions) => versions,
                None => installed,
            };
            assert(texts(versions@) == library_versions(option_texts(*asked), texts(installed@)));
            if position >= versions.len() {
                return LibraryStep::Done;
            }
            let version = versions[position].clone();
            assert(version@ == texts(versions@)[position as int]);
            if !is_installed(installed, version.as_str()) {
                return LibraryStep::Failed(Error::NotInstalled(version));
            }
            let command = library_query(version.as_str());
            LibraryStep::Query { version, command }
        },
    }
}

} // verus!
