//! The major-version bucket of a runtime version, which decides which build of
//! the companion toolchain serves it.

use vstd::prelude::*;
use vstd::string::*;

use crate::text::same_text;

verus! {

/// The two buckets that the companion toolchain distinguishes.
#[derive(Debug, Clone, Copy, PartialEq, Eq, Structural)]
pub enum Epoch {
    /// Every version that is not in [`Epoch::FourOrDevel`].
    Earlier,
    /// A version whose first character is `4`, and the version `devel`.
    FourOrDevel,
}

/// The epoch of a version, read off its first character or the literal `devel`.
pub open spec fn epoch_of(version: Seq<char>) -> Epoch {
    if (version.len() > 0 && version[0] == '4') || version == "devel"@ {
        Epoch::FourOrDevel
    } else {
        Epoch::Earlier
    }
}

/// The first character of `s`, if it has one.
pub fn first_char(s: &str) -> (first: Option<char>)
    ensures
        first == (if s@.len() > 0 {
            Some(s@[0])
        } else {
            None
        }),
{
    let mut it = s.chars();
    it.next()
}

impl Epoch {
    /// Computes the epoch of `version`.
    pub fn of(version: &str) -> (epoch: Epoch)
        ensures
            epoch == epoch_of(version@),
    {
        let leading_four = match first_char(version) {
            Some(c) => c == '4',
            None => false,
        };
        if leading_four || same_text(version, "devel") {
            Epoch::FourOrDevel
        } else {
            Epoch::Earlier
        }
    }
}

} // verus!
