//! Removing versions, one batch at a time.
//!
//! The versions of a batch are taken in order. Each must be installed when
//! its turn comes; its directory is then removed. The first version that is
//! not installed, and the first directory that cannot be removed, end the
//! batch: what follows is not attempted. However the batch ends, the
//! launchers are refreshed once afterwards.

use vstd::prelude::*;
use vstd::string::*;

use crate::error::{Error, ErrorModel};
use crate::registry::{install_dir, install_path, is_installed};
use crate::text::texts;

verus! {

/// What the caller reports while a batch is removed.
#[derive(Debug, PartialEq, Eq)]
pub enum RemovalEvent {
    /// The batch begins, or the last directory was removed.
    Ready,
    /// The last directory could not be removed.
    Failed(Error),
}

/// What the caller is to do next.
#[derive(Debug, PartialEq, Eq)]
pub enum RemovalStep {
    /// Remove this directory and all that it holds.
    Remove(String),
    /// The batch is over: refresh the launchers once, then report this
    /// outcome.
    Finish(Result<(), Error>),
}

/// The mathematical value of a [`RemovalEvent`].
pub enum RemovalEventModel {
    Ready,
    Failed(ErrorModel),
}

/// The mathematical value of a [`RemovalStep`].
pub enum RemovalStepModel {
    Remove(Seq<char>),
    Finish(Result<(), ErrorModel>),
}

impl View for RemovalEvent {
    type V = RemovalEventModel;

    open spec fn view(&self) -> RemovalEventModel {
        match self {
            RemovalEvent::Ready => RemovalEventModel::Ready,
            RemovalEvent::Failed(error) => RemovalEventModel::Failed(error@),
        }
    }
}

impl View for RemovalStep {
    type V = RemovalStepModel;

    open spec fn view(&self) -> RemovalStepModel {
        match self {
            RemovalStep::Remove(directory) => RemovalStepModel::Remove(directory@),
            RemovalStep::Finish(Ok(())) => RemovalStepModel::Finish(Ok(())),
            RemovalStep::Finish(Err(error)) => RemovalStepModel::Finish(Err(error@)),
        }
    }
}

/// The next step of the batch `versions` when `position` of them have been
/// removed, the registry now is `installed`, and `event` is what happened
/// last.
pub open spec fn removal_step(
    versions: Seq<Seq<char>>,
    installed: Seq<Seq<char>>,
    position: int,
    event: RemovalEventModel,
) -> RemovalStepModel {
    match event {
        RemovalEventModel::Failed(error) => RemovalStepModel::Finish(Err(error)),
        RemovalEventModel::Ready => if position < 0 || position >= versions.len() {
            RemovalStepModel::Finish(Ok(()))
        } else if !installed.contains(versions[position]) {
            RemovalStepModel::Finish(Err(ErrorModel::NotInstalled(versions[position])))
        } else {
            RemovalStepModel::Remove(install_path(versions[position]))
        },
    }
}

/// Decides the next step while the batch `versions` is removed.
///
/// `installed` is the registry as it is now, `position` the number of
/// versions of the batch that have been removed, `event` what happened last.
///
/// # Errors
///
/// The batch finishes with `NotInstalled` where the version at `position` is
/// not in the registry, and with the error of a removal that failed.
pub fn sc_rm(
    versions: &Vec<String>,
    installed: &Vec<String>,
    position: usize,
    event: RemovalEvent,
) -> (step: RemovalStep)
    ensures
        step@ == removal_step(texts(versions@), texts(installed@), position as int, event@),
{
    match event {
        RemovalEvent::Failed(error) => RemovalStep::Finish(Err(error)),
        RemovalEvent::Ready => {
            if position >= versions.len() {
                return RemovalStep::Finish(Ok(()));
            }
            let version = versions[position].as_str();
            assert(version@ == texts(versions@)[position as int]);
            if is_installed(installed, version) {
                RemovalStep::Remove(install_dir(version))
            } else {
                RemovalStep::Finish(Err(Error::NotInstalled(versions[position].clone())))
            }
        },
    }
}

/// The test that a version is another one than `version`.
pub open spec fn other_than(version: Seq<char>) -> spec_fn(Seq<char>) -> bool {
    |v: Seq<char>| v != version
}

/// The registry once the directory of `version` has been removed.
pub open spec fn without_version(installed: Seq<Seq<char>>, version: Seq<char>) -> Seq<Seq<char>> {
    installed.filter(other_than(version))
}

/// The directories that a batch removes from `position` on, in order, where
/// every removal succeeds and the registry changes by those removals alone.
pub open spec fn removed_from(
    versions: Seq<Seq<char>>,
    installed: Seq<Seq<char>>,
    position: int,
) -> Seq<Seq<char>>
    decreases versions.len() - position,
{
    if position < 0 {
        Seq::empty()
    } else {
        match removal_step(versions, installed, position, RemovalEventModel::Ready) {
            RemovalStepModel::Remove(directory) => seq![directory] + removed_from(
                versions,
                without_version(installed, versions[position]),
                position + 1,
            ),
            RemovalStepModel::Finish(_) => Seq::empty(),
        }
    }
}

/// How such a batch ends.
pub open spec fn outcome_from(
    versions: Seq<Seq<char>>,
    installed: Seq<Seq<char>>,
    position: int,
) -> Result<(), ErrorModel>
    decreases versions.len() - position,
{
    if position < 0 {
        Ok(())
    } else {
        match removal_step(versions, installed, position, RemovalEventModel::Ready) {
            RemovalStepModel::Remove(_) => outcome_from(
                versions,
                without_version(installed, versions[position]),
                position + 1,
            ),
            RemovalStepModel::Finish(outcome) => outcome,
        }
    }
}

/// What is in the registry once a directory is removed: every version but
/// the one that was removed.
proof fn lemma_without_version(installed: Seq<Seq<char>>, version: Seq<char>)
    ensures
        forall|v: Seq<char>|
            without_version(installed, version).contains(v) <==> installed.contains(v) && v
                != version,
{
    let keep = other_than(version);
    assert forall|v: Seq<char>|
        without_version(installed, version).contains(v) <==> installed.contains(v) && v
            != version by {
        if installed.filter(keep).contains(v) {
            installed.lemma_filter_contains_rev(keep, v);
            let i = choose|i: int| 0 <= i < installed.filter(keep).len() && installed.filter(
                keep,
            )[i] == v;
            installed.lemma_filter_pred(keep, i);
        }
        if installed.contains(v) && v != version {
            let i = choose|i: int| 0 <= i < installed.len() && installed[i] == v;
            installed.lemma_filter_contains(keep, i);
        }
    }
}

/// The batch from `position` on removes the versions up to `stop` where
/// these are installed and differ from each other, and the one at `stop` is
/// not installed or is one of them.
proof fn lemma_batch_from(
    versions: Seq<Seq<char>>,
    installed: Seq<Seq<char>>,
    position: int,
    stop: int,
)
    requires
        0 <= position <= stop <= versions.len(),
        forall|i: int| position <= i < stop ==> installed.contains(versions[i]),
        forall|i: int, j: int| position <= i < j < stop ==> versions[i] != versions[j],
        stop < versions.len() ==> !installed.contains(versions[stop]) || exists|i: int|
            position <= i < stop && versions[i] == versions[stop],
    ensures
        removed_from(versions, installed, position) == Seq::new(
            (stop - position) as nat,
            |i: int| install_path(versions[position + i]),
        ),
        outcome_from(versions, installed, position) == (if stop == versions.len() {
            Ok::<(), ErrorModel>(())
        } else {
            Err::<(), ErrorModel>(ErrorModel::NotInstalled(versions[stop]))
        }),
    decreases stop - position,
{
    let removed = Seq::new((stop - position) as nat, |i: int| install_path(versions[position + i]));
    if position == stop {
        assert(removed_from(versions, installed, position) =~= removed);
    } else {
        let left = without_version(installed, versions[position]);
        lemma_without_version(installed, versions[position]);
        assert(stop < versions.len() ==> !left.contains(versions[stop]) || exists|i: int|
            position + 1 <= i < stop && versions[i] == versions[stop]) by {
            if stop < versions.len() && left.contains(versions[stop]) {
                let i = choose|i: int| position <= i < stop && versions[i] == versions[stop];
                assert(i != position);
            }
        }
        lemma_batch_from(versions, left, position + 1, stop);
        assert(removed_from(versions, installed, position) =~= removed);
    }
}

/// A batch removes the versions that precede the first one which is not
/// installed when its turn comes, in order and nothing else, and ends with
/// `NotInstalled` for that one; it ends well where there is none.
///
/// `stop` is the index of that version, or the length of the batch. A
/// version is not installed at its turn where the registry does not hold it
/// or where the batch has named it before. A batch whose first version is
/// not installed therefore removes nothing.
pub proof fn law_batch_stops_at_first_absent(
    versions: Seq<Seq<char>>,
    installed: Seq<Seq<char>>,
    stop: int,
)
    requires
        0 <= stop <= versions.len(),
        forall|i: int| 0 <= i < stop ==> installed.contains(versions[i]),
        forall|i: int, j: int| 0 <= i < j < stop ==> versions[i] != versions[j],
        stop < versions.len() ==> !installed.contains(versions[stop]) || exists|i: int|
            0 <= i < stop && versions[i] == versions[stop],
    ensures
        removed_from(versions, installed, 0) == Seq::new(
            stop as nat,
            |i: int| install_path(versions[i]),
        ),
        outcome_from(versions, installed, 0) == (if stop == versions.len() {
            Ok::<(), ErrorModel>(())
        } else {
            Err::<(), ErrorModel>(ErrorModel::NotInstalled(versions[stop]))
        }),
{
    lemma_batch_from(versions, installed, 0, stop);
    assert(Seq::new(stop as nat, |i: int| install_path(versions[0 + i])) =~= Seq::new(
        stop as nat,
        |i: int| install_path(versions[i]),
    ));
}

} // verus!
