//! Adding a version: what to run, in which order, and when to give up.
//!
//! The caller performs one action at a time and reports what happened as an
//! event; [`sc_add`] answers each event with the next action. The order is
//! fixed: fetch the installer, run it, and only when it exits with status 0
//! create the user library, refresh the launchers and patch the environment
//! files. Nothing is rolled back: each step is safe to run again.

use vstd::prelude::*;
use vstd::string::*;

use crate::command::Command;
use crate::error::{Error, ErrorModel};
use crate::text::{starts_with, texts};

verus! {

/// What the caller reports while a version is added.
#[derive(Debug, PartialEq, Eq)]
pub enum InstallEvent {
    /// A request came in; holds it as it was given.
    Requested(String),
    /// The installer was fetched; holds the path of its file.
    Fetched(String),
    /// The installer ended; holds its exit code, or `None` where it ended
    /// without one.
    InstallerExited(Option<i32>),
    /// The user library is there.
    LibraryCreated,
    /// The launchers were refreshed.
    LaunchersRefreshed,
    /// The environment files were gone through.
    EnvironmentPatched,
    /// The last action could not be carried out.
    Failed(Error),
}

/// What the caller is to do next.
#[derive(Debug, PartialEq, Eq)]
pub enum InstallAction {
    /// The request is for Rtools: install that, and nothing else.
    AddRtools(String),
    /// Resolve the request to a version and download its installer.
    Fetch(String),
    /// Run the installer and wait until it ends.
    Run(Command),
    /// Create the user library, unless it is there.
    CreateLibrary,
    /// Write the launcher of every installed version.
    RefreshLaunchers,
    /// Patch the environment file of every installed version. A file that
    /// cannot be written is reported and skipped.
    PatchEnvironment,
    /// The version is installed and provisioned.
    Finish,
    /// Give up with this error.
    Abort(Error),
}

/// The mathematical value of an [`InstallEvent`].
pub enum InstallEventModel {
    Requested(Seq<char>),
    Fetched(Seq<char>),
    InstallerExited(Option<i32>),
    LibraryCreated,
    LaunchersRefreshed,
    EnvironmentPatched,
    Failed(ErrorModel),
}

/// The mathematical value of an [`InstallAction`].
pub enum InstallActionModel {
    AddRtools(Seq<char>),
    Fetch(Seq<char>),
    Run((Seq<char>, Seq<Seq<char>>)),
    CreateLibrary,
    RefreshLaunchers,
    PatchEnvironment,
    Finish,
    Abort(ErrorModel),
}

impl View for InstallEvent {
    type V = InstallEventModel;

    open spec fn view(&self) -> InstallEventModel {
        match self {
            InstallEvent::Requested(request) => InstallEventModel::Requested(request@),
            InstallEvent::Fetched(installer) => InstallEventModel::Fetched(installer@),
            InstallEvent::InstallerExited(code) => InstallEventModel::InstallerExited(*code),
            InstallEvent::LibraryCreated => InstallEventModel::LibraryCreated,
            InstallEvent::LaunchersRefreshed => InstallEventModel::LaunchersRefreshed,
            InstallEvent::EnvironmentPatched => InstallEventModel::EnvironmentPatched,
            InstallEvent::Failed(error) => InstallEventModel::Failed(error@),
        }
    }
}

impl View for InstallAction {
    type V = InstallActionModel;

    open spec fn view(&self) -> InstallActionModel {
        match self {
            InstallAction::AddRtools(request) => InstallActionModel::AddRtools(request@),
            InstallAction::Fetch(request) => InstallActionModel::Fetch(request@),
            InstallAction::Run(command) => InstallActionModel::Run(command@),
            InstallAction::CreateLibrary => InstallActionModel::CreateLibrary,
            InstallAction::RefreshLaunchers => InstallActionModel::RefreshLaunchers,
            InstallAction::PatchEnvironment => InstallActionModel::PatchEnvironment,
            InstallAction::Finish => InstallActionModel::Finish,
            InstallAction::Abort(error) => InstallActionModel::Abort(error@),
        }
    }
}

/// A request that begins with `rtools` is for the toolchain, not for a
/// runtime.
pub open spec fn asks_rtools(request: Seq<char>) -> bool {
    "rtools"@.is_prefix_of(request)
}

/// The command that runs the installer `installer` without any prompt.
pub open spec fn silent_install(installer: Seq<char>) -> (Seq<char>, Seq<Seq<char>>) {
    (installer, seq!["/VERYSILENT"@, "/SUPPRESSMSGBOXES"@])
}

/// The next action after `event`.
pub open spec fn install_step(event: InstallEventModel) -> InstallActionModel {
    match event {
        InstallEventModel::Requested(request) => if asks_rtools(request) {
            InstallActionModel::AddRtools(request)
        } else {
            InstallActionModel::Fetch(request)
        },
        InstallEventModel::Fetched(installer) => InstallActionModel::Run(silent_install(installer)),
        InstallEventModel::InstallerExited(code) => if code == Some(0i32) {
            InstallActionModel::CreateLibrary
        } else {
            InstallActionModel::Abort(ErrorModel::InstallerFailure(code))
        },
        InstallEventModel::LibraryCreated => InstallActionModel::RefreshLaunchers,
        InstallEventModel::LaunchersRefreshed => InstallActionModel::PatchEnvironment,
        InstallEventModel::EnvironmentPatched => InstallActionModel::Finish,
        InstallEventModel::Failed(error) => InstallActionModel::Abort(error),
    }
}

/// Builds the command that runs an installer silently.
pub fn installer_command(installer: String) -> (command: Command)
    ensures
        command@ == silent_install(installer@),
{
    let mut args: Vec<String> = Vec::new();
    args.push(String::from_str("/VERYSILENT"));
    args.push(String::from_str("/SUPPRESSMSGBOXES"));
    assert(texts(args@) =~= seq!["/VERYSILENT"@, "/SUPPRESSMSGBOXES"@]);
    Command { program: installer, args }
}

/// Judges how an installer ended: only exit status 0 is a success.
pub fn installer_outcome(code: Option<i32>) -> (outcome: Result<(), Error>)
    ensures
        match outcome {
            Ok(()) => code == Some(0i32),
            Err(error) => code != Some(0i32) && error@ == ErrorModel::InstallerFailure(code),
        },
{
    match code {
        Some(0) => Ok(()),
        _ => Err(Error::InstallerFailure(code)),
    }
}

/// Decides the next action while a version is added.
///
/// A request for Rtools is handed on whole. An installer that ends with
/// anything but exit status 0 ends the flow with `InstallerFailure`, and so
/// does every action that fails, with its own error; nothing is provisioned
/// after that.
pub fn sc_add(event: InstallEvent) -> (action: InstallAction)
    ensures
        action@ == install_step(event@),
{
    match event {
        InstallEvent::Requested(request) => {
            if starts_with(request.as_str(), "rtools") {
                InstallAction::AddRtools(request)
            } else {
                InstallAction::Fetch(request)
            }
        },
        InstallEvent::Fetched(installer) => InstallAction::Run(installer_command(installer)),
        InstallEvent::InstallerExited(code) => match installer_outcome(code) {
            Ok(()) => InstallAction::CreateLibrary,
            Err(error) => InstallAction::Abort(error),
        },
        InstallEvent::LibraryCreated => InstallAction::RefreshLaunchers,
        InstallEvent::LaunchersRefreshed => InstallAction::PatchEnvironment,
        InstallEvent::EnvironmentPatched => InstallAction::Finish,
        InstallEvent::Failed(error) => InstallAction::Abort(error),
    }
}

} // verus!
