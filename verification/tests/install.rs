use rim::{installer_command, installer_outcome, sc_add, Command, Error, InstallAction, InstallEvent};

#[test]
fn request_for_rtools_is_handed_on() {
    assert_eq!(
        sc_add(InstallEvent::Requested("rtools".to_string())),
        InstallAction::AddRtools("rtools".to_string())
    );
    assert_eq!(
        sc_add(InstallEvent::Requested("rtools40".to_string())),
        InstallAction::AddRtools("rtools40".to_string())
    );
}

#[test]
fn request_for_a_runtime_is_fetched() {
    for request in ["4.1.0", "release", "devel", "", "rtool", "Rtools", "xrtools", "rtoolé"] {
        assert_eq!(
            sc_add(InstallEvent::Requested(request.to_string())),
            InstallAction::Fetch(request.to_string())
        );
    }
}

#[test]
fn fetched_installer_is_run_silently() {
    let expected = Command {
        program: "C:\\Temp\\rim\\R-4.1.0-win.exe".to_string(),
        args: vec!["/VERYSILENT".to_string(), "/SUPPRESSMSGBOXES".to_string()],
    };
    assert_eq!(installer_command("C:\\Temp\\rim\\R-4.1.0-win.exe".to_string()), expected);
    assert_eq!(
        sc_add(InstallEvent::Fetched("C:\\Temp\\rim\\R-4.1.0-win.exe".to_string())),
        InstallAction::Run(expected)
    );
}

#[test]
fn only_exit_status_zero_is_a_success() {
    assert_eq!(installer_outcome(Some(0)), Ok(()));
    assert_eq!(installer_outcome(Some(1)), Err(Error::InstallerFailure(Some(1))));
    assert_eq!(installer_outcome(Some(-1)), Err(Error::InstallerFailure(Some(-1))));
    assert_eq!(installer_outcome(None), Err(Error::InstallerFailure(None)));
}

#[test]
fn failed_installer_ends_the_flow() {
    assert_eq!(
        sc_add(InstallEvent::InstallerExited(Some(5))),
        InstallAction::Abort(Error::InstallerFailure(Some(5)))
    );
    assert_eq!(
        sc_add(InstallEvent::InstallerExited(None)),
        InstallAction::Abort(Error::InstallerFailure(None))
    );
}

#[test]
fn provisioning_follows_a_fixed_order() {
    assert_eq!(sc_add(InstallEvent::InstallerExited(Some(0))), InstallAction::CreateLibrary);
    assert_eq!(sc_add(InstallEvent::LibraryCreated), InstallAction::RefreshLaunchers);
    assert_eq!(sc_add(InstallEvent::LaunchersRefreshed), InstallAction::PatchEnvironment);
    assert_eq!(sc_add(InstallEvent::EnvironmentPatched), InstallAction::Finish);
}

#[test]
fn failed_action_ends_the_flow_with_its_error() {
    assert_eq!(sc_add(InstallEvent::Failed(Error::Io)), InstallAction::Abort(Error::Io));
    assert_eq!(
        sc_add(InstallEvent::Failed(Error::NotInstalled("4.1.0".to_string()))),
        InstallAction::Abort(Error::NotInstalled("4.1.0".to_string()))
    );
}

#[test]
fn whole_flow_of_a_successful_install() {
    let mut event = InstallEvent::Requested("4.1.0".to_string());
    let mut seen = Vec::new();
    loop {
        let action = sc_add(event);
        event = match &action {
            InstallAction::Fetch(_) => InstallEvent::Fetched("setup.exe".to_string()),
            InstallAction::Run(_) => InstallEvent::InstallerExited(Some(0)),
            InstallAction::CreateLibrary => InstallEvent::LibraryCreated,
            InstallAction::RefreshLaunchers => InstallEvent::LaunchersRefreshed,
            InstallAction::PatchEnvironment => InstallEvent::EnvironmentPatched,
            _ => {
                seen.push(action);
                break;
            }
        };
        seen.push(action);
    }
    assert_eq!(seen.len(), 6);
    assert_eq!(seen[2], InstallAction::CreateLibrary);
    assert_eq!(seen[3], InstallAction::RefreshLaunchers);
    assert_eq!(seen[4], InstallAction::PatchEnvironment);
    assert_eq!(seen[5], InstallAction::Finish);
}
