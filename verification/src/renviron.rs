//! Wiring an installation to Rtools through its site environment file.
//!
//! Each installation has a file `etc\Renviron.site`. The patch appends a block
//! that puts the toolchain on `PATH`. The block opens with a marker line, and
//! a file that already holds a line beginning with the marker is left alone, so
//! a file is patched at most once however often the patch is applied.

use vstd::prelude::*;
use vstd::string::*;

use crate::epoch::{epoch_of, Epoch};
use crate::registry::{install_dir, install_path};
use crate::text::{chars_of, occurs_at, occurs_in};

verus! {

/// The beginning of the line that marks a patched file.
pub open spec fn marker() -> Seq<char> {
    "# added by rim"@
}

/// A line of `text` begins at index `at`.
pub open spec fn line_start(text: Seq<char>, at: int) -> bool {
    0 <= at <= text.len() && (at == 0 || text[at - 1] == '\n')
}

/// The line of `text` that begins at index `at` begins with the marker.
pub open spec fn marked_at(text: Seq<char>, at: int) -> bool {
    line_start(text, at) && occurs_at(text, at, marker())
}

/// Some line of `text` begins with the marker.
pub open spec fn is_patched(text: Seq<char>) -> bool {
    exists|at: int| marked_at(text, at)
}

/// The line that sets `PATH` for the toolchain of `epoch`.
pub open spec fn path_setting(epoch: Epoch) -> Seq<char> {
    match epoch {
        Epoch::Earlier => "PATH=\"C:\\Rtools\\bin;${PATH}\""@,
        Epoch::FourOrDevel =>
            "PATH=\"${RTOOLS40_HOME}\\ucrt64\\bin;${RTOOLS40_HOME}\\usr\\bin;${PATH}\""@,
    }
}

/// The block that the patch appends for `epoch`: a line feed, which ends
/// whatever line the file stopped in, then the marker line, the `PATH` line,
/// the closing line and an empty line.
pub open spec fn stanza(epoch: Epoch) -> Seq<char> {
    "\n# added by rim, do not update by hand-----\n"@ + path_setting(epoch)
        + "\n# ----------------------------------------\n"@ + "\n"@
}

/// Where the site environment file of `version` lies.
pub open spec fn renviron_path_of(version: Seq<char>) -> Seq<char> {
    install_path(version) + "\\etc\\Renviron.site"@
}

/// What the patch appends to a file that holds `current`, or to a file that
/// does not exist yet (`None`): nothing where a marker is there already.
pub open spec fn patch_of(version: Seq<char>, current: Option<Seq<char>>) -> Option<Seq<char>> {
    match current {
        Some(text) if is_patched(text) => None,
        _ => Some(stanza(epoch_of(version))),
    }
}

/// What the file of `version` holds once the patch has been applied to it.
pub open spec fn patched(version: Seq<char>, current: Option<Seq<char>>) -> Seq<char> {
    let before = match current {
        Some(text) => text,
        None => Seq::empty(),
    };
    match patch_of(version, current) {
        Some(block) => before + block,
        None => before,
    }
}

/// The characters of an optional text.
pub open spec fn option_text(text: Option<&str>) -> Option<Seq<char>> {
    match text {
        Some(t) => Some(t@),
        None => None,
    }
}

/// Builds the path of the site environment file of `version`.
pub fn renviron_path(version: &str) -> (path: String)
    ensures
        path@ == renviron_path_of(version@),
{
    let mut path = install_dir(version);
    path.append("\\etc\\Renviron.site");
    path
}

/// Tests whether some line of `text` begins with the marker.
pub fn has_marker(text: &str) -> (found: bool)
    ensures
        found == is_patched(text@),
{
    let chars = chars_of(text);
    let mark = chars_of("# added by rim");
    proof {
        reveal_strlit("# added by rim");
    }
    let mut at: usize = 0;
    while at < chars.len()
        invariant
            chars@ == text@,
            mark@ == marker(),
            mark@.len() == 14,
            at <= chars.len(),
            forall|j: int| 0 <= j < at ==> !marked_at(text@, j),
        decreases chars.len() - at,
    {
        if (at == 0 || chars[at - 1] == '\n') && occurs_in(&chars, at, &mark) {
            assert(marked_at(text@, at as int));
            return true;
        }
        at += 1;
    }
    assert forall|j: int| !marked_at(text@, j) by {
        if j >= at {
            assert(!occurs_at(text@, j, marker()));
        }
    }
    false
}

/// Builds the block that the patch appends for `epoch`.
pub fn rtools_stanza(epoch: Epoch) -> (block: String)
    ensures
        block@ == stanza(epoch),
{
    let mut block = String::from_str("\n# added by rim, do not update by hand-----\n");
    match epoch {
        Epoch::Earlier => block.append("PATH=\"C:\\Rtools\\bin;${PATH}\""),
        Epoch::FourOrDevel => block.append(
            "PATH=\"${RTOOLS40_HOME}\\ucrt64\\bin;${RTOOLS40_HOME}\\usr\\bin;${PATH}\"",
        ),
    }
    block.append("\n# ----------------------------------------\n");
    block.append("\n");
    block
}

/// Decides what to append to the site environment file of `version`.
///
/// `current` is what the file holds, or `None` where it does not exist. The
/// result is the text to append, or `None` where the file is patched already.
/// The block is chosen by the epoch of `version`.
pub fn patch_for_rtools(version: &str, current: Option<&str>) -> (append: Option<String>)
    ensures
        match append {
            Some(block) => patch_of(version@, option_text(current)) == Some(block@),
            None => patch_of(version@, option_text(current)) is None,
        },
{
    let done = match current {
        Some(text) => has_marker(text),
        None => false,
    };
    if done {
        None
    } else {
        Some(rtools_stanza(Epoch::of(version)))
    }
}

/// Every block begins with a line break followed by the marker.
pub proof fn lemma_stanza_is_marked(epoch: Epoch)
    ensures
        stanza(epoch).len() >= 15,
        stanza(epoch)[0] == '\n',
        stanza(epoch).subrange(1, 15) == marker(),
{
    reveal_strlit("# added by rim");
    reveal_strlit("\n# added by rim, do not update by hand-----\n");
    let head = "\n# added by rim, do not update by hand-----\n"@;
    assert(head.len() == 44);
    assert(head.subrange(1, 15) =~= marker());
    assert(stanza(epoch).subrange(1, 15) =~= head.subrange(1, 15));
}

/// A file to which a block was appended holds a marked line.
pub proof fn lemma_appended_is_patched(before: Seq<char>, epoch: Epoch)
    ensures
        is_patched(before + stanza(epoch)),
{
    lemma_stanza_is_marked(epoch);
    let text = before + stanza(epoch);
    let at = before.len() as int + 1;
    assert(text[at - 1] == stanza(epoch)[0]);
    assert(text.subrange(at, at + 14) =~= stanza(epoch).subrange(1, 15));
    assert(marked_at(text, at));
}

/// Applying the patch twice leaves the file as the first application left it,
/// whatever it held before and whichever versions the two applications name.
pub proof fn law_patch_idempotent(
    version: Seq<char>,
    again: Seq<char>,
    current: Option<Seq<char>>,
)
    ensures
        is_patched(patched(version, current)),
        patch_of(again, Some(patched(version, current))) is None,
        patched(again, Some(patched(version, current))) == patched(version, current),
{
    match current {
        Some(text) => {
            if !is_patched(text) {
                lemma_appended_is_patched(text, epoch_of(version));
            }
        },
        None => {
            lemma_appended_is_patched(Seq::empty(), epoch_of(version));
        },
    }
}

/// The block for a version is the one of its epoch: versions that begin with
/// `4`, and `devel`, get the `RTOOLS40_HOME` form, all others the `C:\Rtools`
/// form.
pub proof fn law_stanza_by_epoch(version: Seq<char>)
    ensures
        patch_of(version, None) == Some(stanza(epoch_of(version))),
        (version.len() > 0 && version[0] == '4') || version == "devel"@ ==> patch_of(version, None)
            == Some(stanza(Epoch::FourOrDevel)),
        !((version.len() > 0 && version[0] == '4') || version == "devel"@) ==> patch_of(
            version,
            None,
        ) == Some(stanza(Epoch::Earlier)),
        stanza(Epoch::Earlier) != stanza(Epoch::FourOrDevel),
{
    reveal_strlit("PATH=\"C:\\Rtools\\bin;${PATH}\"");
    reveal_strlit("PATH=\"${RTOOLS40_HOME}\\ucrt64\\bin;${RTOOLS40_HOME}\\usr\\bin;${PATH}\"");
    reveal_strlit("\n# added by rim, do not update by hand-----\n");
    assert(stanza(Epoch::Earlier)[50] == 'C');
    assert(stanza(Epoch::FourOrDevel)[50] == '$');
}

} // verus!
