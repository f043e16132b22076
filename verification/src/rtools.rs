//! Installing Rtools, the toolchain that builds native extensions.
//!
//! A request names Rtools either bare (`rtools`), which asks for the builds
//! that the installed runtimes need, or with a version (`rtools40`). Each
//! needed build is one installer to download and run; the file name of the
//! installer follows the epoch of the build.

use vstd::prelude::*;
use vstd::string::*;

use crate::command::{r_command, r_query, Command};
use crate::epoch::{epoch_of, first_char, Epoch};
use crate::error::{Error, ErrorModel};
use crate::install::installer_outcome;
use crate::text::{chars_of, contains_text, occurs_at, occurs_in, same_text, texts};

verus! {

/// What a request for Rtools asks for.
#[derive(Debug, PartialEq, Eq)]
pub enum RtoolsRequest {
    /// The builds that the installed runtimes need.
    Needed,
    /// The build of this version.
    Version(String),
}

/// An installer to fetch: where it is published and the name of its file.
#[derive(Debug, PartialEq, Eq)]
pub struct Download {
    pub url: String,
    pub file_name: String,
}

impl View for Download {
    type V = (Seq<char>, Seq<char>);

    open spec fn view(&self) -> (Seq<char>, Seq<char>) {
        (self.url@, self.file_name@)
    }
}

/// What the caller reports while builds of Rtools are installed.
#[derive(Debug, PartialEq, Eq)]
pub enum RtoolsEvent {
    /// The batch begins.
    Ready,
    /// The last installer ended; holds its exit code, or `None` where it
    /// ended without one.
    InstallerExited(Option<i32>),
    /// The last installer could not be fetched or run.
    Failed(Error),
}

/// What the caller is to do next.
#[derive(Debug, PartialEq, Eq)]
pub enum RtoolsStep {
    /// Fetch this installer, run it without any prompt and wait until it
    /// ends.
    Install(Download),
    /// The batch is over, with this outcome.
    Finish(Result<(), Error>),
}

/// The mathematical value of an [`RtoolsEvent`].
pub enum RtoolsEventModel {
    Ready,
    InstallerExited(Option<i32>),
    Failed(ErrorModel),
}

/// The mathematical value of an [`RtoolsStep`].
pub enum RtoolsStepModel {
    Install((Seq<char>, Seq<char>)),
    Finish(Result<(), ErrorModel>),
}

impl View for RtoolsEvent {
    type V = RtoolsEventModel;

    open spec fn view(&self) -> RtoolsEventModel {
        match self {
            RtoolsEvent::Ready => RtoolsEventModel::Ready,
            RtoolsEvent::InstallerExited(code) => RtoolsEventModel::InstallerExited(*code),
            RtoolsEvent::Failed(error) => RtoolsEventModel::Failed(error@),
        }
    }
}

impl View for RtoolsStep {
    type V = RtoolsStepModel;

    open spec fn view(&self) -> RtoolsStepModel {
        match self {
            RtoolsStep::Install(installer) => RtoolsStepModel::Install(installer@),
            RtoolsStep::Finish(Ok(())) => RtoolsStepModel::Finish(Ok(())),
            RtoolsStep::Finish(Err(error)) => RtoolsStepModel::Finish(Err(error@)),
        }
    }
}

/// `text` with every occurrence of `word` taken out, found from left to right
/// and never overlapping.
pub open spec fn without(text: Seq<char>, word: Seq<char>) -> Seq<char>
    decreases text.len(),
{
    if text.len() == 0 || word.len() == 0 {
        text
    } else if occurs_at(text, 0, word) {
        without(text.skip(word.len() as int), word)
    } else {
        seq![text[0]] + without(text.drop_first(), word)
    }
}

/// The version that a request names: none where it is the bare word `rtools`,
/// else what is left of it without that word.
pub open spec fn requested_version(request: Seq<char>) -> Option<Seq<char>> {
    if request == "rtools"@ {
        None
    } else {
        Some(without(request, "rtools"@))
    }
}

/// The build of Rtools that serves a runtime which reports `version`: `35`
/// for a version that begins with `3`, `40` for one that begins with `4`.
pub open spec fn build_for(version: Seq<char>) -> Option<Seq<char>> {
    if version.len() > 0 && version[0] == '3' {
        Some("35"@)
    } else if version.len() > 0 && version[0] == '4' {
        Some("40"@)
    } else {
        None
    }
}

/// The builds that runtimes reporting `versions` need, each once, in the
/// order in which they are first needed.
pub open spec fn builds_for(versions: Seq<Seq<char>>) -> Seq<Seq<char>>
    decreases versions.len(),
{
    if versions.len() == 0 {
        Seq::empty()
    } else {
        let earlier = builds_for(versions.drop_last());
        match build_for(versions.last()) {
            Some(build) if !earlier.contains(build) => earlier.push(build),
            _ => earlier,
        }
    }
}

/// The name of the installer of the build `version`.
pub open spec fn installer_name(version: Seq<char>) -> Seq<char> {
    match epoch_of(version) {
        Epoch::FourOrDevel => "rtools"@ + version + "-x86_64.exe"@,
        Epoch::Earlier => "Rtools"@ + version + ".exe"@,
    }
}

/// The installer of the build `version`, as URL and file name.
pub open spec fn installer_of(version: Seq<char>) -> (Seq<char>, Seq<char>) {
    (
        "https://cloud.r-project.org/bin/windows/Rtools/"@ + installer_name(version),
        installer_name(version),
    )
}

/// Takes every occurrence of `word` out of `text`.
pub fn remove_word(text: &str, word: &str) -> (rest: String)
    ensures
        rest@ == without(text@, word@),
{
    let chars = chars_of(text);
    let letters = chars_of(word);
    if letters.len() == 0 || chars.len() == 0 {
        return text.to_owned();
    }
    let mut rest = String::new();
    let mut from: usize = 0;
    let mut at: usize = 0;
    assert(text@.skip(0) =~= text@);
    while at < chars.len()
        invariant
            chars@ == text@,
            letters@ == word@,
            letters.len() > 0,
            from <= at <= chars.len(),
            rest@ + text@.subrange(from as int, at as int) + without(text@.skip(at as int), word@)
                == without(text@, word@),
        decreases chars.len() - at,
    {
        let ghost tail = text@.skip(at as int);
        if occurs_in(&chars, at, &letters) {
            proof {
                assert(tail.subrange(0, word@.len() as int) =~= text@.subrange(
                    at as int,
                    at + word@.len(),
                ));
                assert(tail.skip(word@.len() as int) =~= text@.skip(at + word@.len()));
            }
            rest.append(text.substring_char(from, at));
            at += letters.len();
            from = at;
            assert(text@.subrange(from as int, at as int) =~= Seq::empty());
        } else {
            proof {
                if at + word@.len() <= text@.len() {
                    assert(tail.subrange(0, word@.len() as int) =~= text@.subrange(
                        at as int,
                        at + word@.len(),
                    ));
                }
                assert(!occurs_at(tail, 0, word@));
                assert(tail.drop_first() =~= text@.skip(at + 1));
                assert(text@.subrange(from as int, at + 1) =~= text@.subrange(
                    from as int,
                    at as int,
                ) + seq![text@[at as int]]);
                assert(rest@ + text@.subrange(from as int, at + 1) + without(
                    text@.skip(at + 1),
                    word@,
                ) =~= rest@ + text@.subrange(from as int, at as int) + without(tail, word@));
            }
            at += 1;
        }
    }
    rest.append(text.substring_char(from, at));
    assert(text@.skip(at as int) =~= Seq::empty());
    assert(rest@ =~= without(text@, word@));
    rest
}

/// Reads a request for Rtools: the bare word asks for what is needed, any
/// other request for the version that is left when the word is taken out.
pub fn rtools_request(request: &str) -> (asked: RtoolsRequest)
    ensures
        match asked {
            RtoolsRequest::Needed => requested_version(request@) is None,
            RtoolsRequest::Version(v) => requested_version(request@) == Some(v@),
        },
{
    if same_text(request, "rtools") {
        RtoolsRequest::Needed
    } else {
        RtoolsRequest::Version(remove_word(request, "rtools"))
    }
}

/// Builds the command that asks the runtime of `version` which version it is.
pub fn version_query(version: &str) -> (command: Command)
    ensures
        command@ == r_query(version@, "cat(as.character(getRversion()))"@),
{
    r_command(version, "cat(as.character(getRversion()))")
}

/// Finds the builds of Rtools that the installed runtimes need, given the
/// version that each of them reports about itself.
pub fn get_rtools_needed(reported: &Vec<String>) -> (builds: Vec<String>)
    ensures
        texts(builds@) == builds_for(texts(reported@)),
{
    let mut builds: Vec<String> = Vec::new();
    let ghost versions = texts(reported@);
    assert(versions.take(0) =~= Seq::empty());
    assert(texts(builds@) =~= Seq::empty());
    for i in 0..reported.len()
        invariant
            versions == texts(reported@),
            texts(builds@) == builds_for(versions.take(i as int)),
    {
        proof {
            assert(versions.take(i + 1).drop_last() =~= versions.take(i as int));
            assert(versions.take(i + 1).last() == reported@[i as int]@);
        }
        let ghost earlier = texts(builds@);
        match first_char(reported[i].as_str()) {
            Some('3') => {
                if !contains_text(&builds, "35") {
                    builds.push(String::from_str("35"));
                    assert(texts(builds@) =~= earlier.push("35"@));
                }
            },
            Some('4') => {
                if !contains_text(&builds, "40") {
                    builds.push(String::from_str("40"));
                    assert(texts(builds@) =~= earlier.push("40"@));
                }
            },
            _ => {},
        }
    }
    assert(versions.take(reported.len() as int) =~= versions);
    builds
}

/// Names the installer of the build `version`.
pub fn rtools_installer(version: &str) -> (installer: Download)
    ensures
        installer@ == installer_of(version@),
{
    let file_name = match Epoch::of(version) {
        Epoch::FourOrDevel => {
            let mut name = String::from_str("rtools");
            name.append(version);
            name.append("-x86_64.exe");
            name
        },
        Epoch::Earlier => {
            let mut name = String::from_str("Rtools");
            name.append(version);
            name.append(".exe");
            name
        },
    };
    let mut url = String::from_str("https://cloud.r-project.org/bin/windows/Rtools/");
    url.append(file_name.as_str());
    Download { url, file_name }
}

/// No build is needed twice, and a build is needed exactly where some
/// runtime reports a version that it serves.
pub proof fn law_builds_needed(versions: Seq<Seq<char>>)
    ensures
        builds_for(versions).no_duplicates(),
        forall|build: Seq<char>|
            builds_for(versions).contains(build) <==> exists|i: int|
                0 <= i < versions.len() && build_for(#[trigger] versions[i]) == Some(build),
    decreases versions.len(),
{
    if versions.len() > 0 {
        let rest = versions.drop_last();
        let earlier = builds_for(rest);
        law_builds_needed(rest);
        assert forall|build: Seq<char>|
            builds_for(versions).contains(build) <==> exists|i: int|
                0 <= i < versions.len() && build_for(#[trigger] versions[i]) == Some(build) by {
            if builds_for(versions).contains(build) {
                if earlier.contains(build) {
                    let i = choose|i: int|
                        0 <= i < rest.len() && build_for(#[trigger] rest[i]) == Some(build);
                    assert(build_for(versions[i]) == Some(build));
                } else {
                    let j = choose|j: int|
                        0 <= j < builds_for(versions).len() && builds_for(versions)[j] == build;
                    assert(j == earlier.len());
                    assert(build_for(versions[versions.len() - 1]) == Some(build));
                }
            }
            if exists|i: int|
                0 <= i < versions.len() && build_for(#[trigger] versions[i]) == Some(build) {
                let i = choose|i: int|
                    0 <= i < versions.len() && build_for(#[trigger] versions[i]) == Some(build);
                if i < rest.len() {
                    assert(build_for(rest[i]) == Some(build));
                    assert(earlier.contains(build));
                    let j = choose|j: int| 0 <= j < earlier.len() && earlier[j] == build;
                    assert(builds_for(versions)[j] == build);
                } else if !earlier.contains(build) {
                    assert(builds_for(versions)[earlier.len() as int] == build);
                } else {
                    let j = choose|j: int| 0 <= j < earlier.len() && earlier[j] == build;
                    assert(builds_for(versions)[j] == build);
                }
            }
        }
    }
}

/// The next step when the installers of `position` builds have been run
/// and `event` is what happened last.
pub open spec fn rtools_step(
    versions: Seq<Seq<char>>,
    position: int,
    event: RtoolsEventModel,
) -> RtoolsStepModel {
    match event {
        RtoolsEventModel::Failed(error) => RtoolsStepModel::Finish(Err(error)),
        RtoolsEventModel::InstallerExited(code) if code != Some(0i32) => RtoolsStepModel::Finish(
            Err(ErrorModel::InstallerFailure(code)),
        ),
        _ => if position < 0 || position >= versions.len() {
            RtoolsStepModel::Finish(Ok(()))
        } else {
            RtoolsStepModel::Install(installer_of(versions[position]))
        },
    }
}

/// Decides the next step while the builds `versions` are installed, one
/// after the other.
///
/// `position` counts the builds whose installer has been run, `event` is
/// what happened last. The first installer that cannot be fetched or run, or
/// that ends with anything but exit status 0, ends the batch: the builds
/// behind it are not attempted.
pub fn add_rtools(versions: &Vec<String>, position: usize, event: RtoolsEvent) -> (step:
    RtoolsStep)
    ensures
        step@ == rtools_step(texts(versions@), position as int, event@),
{
    match event {
        RtoolsEvent::Failed(error) => {
            return RtoolsStep::Finish(Err(error));
        },
        RtoolsEvent::InstallerExited(code) => {
            match installer_outcome(code) {
                Ok(()) => {},
                Err(error) => {
                    return RtoolsStep::Finish(Err(error));
                },
            }
        },
        RtoolsEvent::Ready => {},
    }
    if position >= versions.len() {
        RtoolsStep::Finish(Ok(()))
    } else {
        RtoolsStep::Install(rtools_installer(versions[position].as_str()))
    }
}

} // verus!
