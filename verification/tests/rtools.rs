use rim::{
    add_rtools, get_rtools_needed, rtools_installer, rtools_request, version_query, Command,
    Download, Error, RtoolsEvent, RtoolsRequest, RtoolsStep,
};
use rim::rtools::remove_word;

fn strings(list: &[&str]) -> Vec<String> {
    list.iter().map(|s| s.to_string()).collect()
}

#[test]
fn needed_builds_follow_the_reported_versions() {
    assert_eq!(get_rtools_needed(&strings(&["3.6.3", "4.1.0", "4.0.2"])), strings(&["35", "40"]));
    assert_eq!(get_rtools_needed(&strings(&["4.1.0", "3.6.3", "3.5.0"])), strings(&["40", "35"]));
    assert_eq!(get_rtools_needed(&strings(&["4.1.0", "4.2.0"])), strings(&["40"]));
    assert_eq!(get_rtools_needed(&strings(&["3.6.3"])), strings(&["35"]));
    assert_eq!(get_rtools_needed(&Vec::new()), Vec::<String>::new());
}

#[test]
fn versions_of_other_epochs_need_no_build() {
    assert_eq!(get_rtools_needed(&strings(&["", "5.0.0", "2.15.3", "devel", " 4.1"])), Vec::<String>::new());
    assert_eq!(get_rtools_needed(&strings(&["2.15.3", "4.3.1", ""])), strings(&["40"]));
}

#[test]
fn bare_request_asks_for_what_is_needed() {
    assert_eq!(rtools_request("rtools"), RtoolsRequest::Needed);
}

#[test]
fn request_with_a_version_names_that_build() {
    assert_eq!(rtools_request("rtools40"), RtoolsRequest::Version("40".to_string()));
    assert_eq!(rtools_request("rtools35"), RtoolsRequest::Version("35".to_string()));
    assert_eq!(rtools_request("rtoolsdevel"), RtoolsRequest::Version("devel".to_string()));
    assert_eq!(rtools_request("rtoolsrtools"), RtoolsRequest::Version("".to_string()));
    assert_eq!(rtools_request("rtools4rtools0"), RtoolsRequest::Version("40".to_string()));
    assert_eq!(rtools_request("Rtools40"), RtoolsRequest::Version("Rtools40".to_string()));
}

#[test]
fn remove_word_takes_out_every_occurrence() {
    for (text, word) in [
        ("rtools40", "rtools"),
        ("rtoolsrtools", "rtools"),
        ("rtrtoolsools", "rtools"),
        ("aaa", "aa"),
        ("aaaa", "aa"),
        ("abc", ""),
        ("", "rtools"),
        ("xrtoolsyrtoolsz", "rtools"),
        ("rtool", "rtools"),
        ("éaé", "a"),
    ] {
        assert_eq!(remove_word(text, word), if word.is_empty() { text.to_string() } else { text.replace(word, "") });
    }
    assert_eq!(remove_word("rtrtoolsools", "rtools"), "rtools");
    assert_eq!(remove_word("aaa", "aa"), "a");
}

#[test]
fn installer_name_follows_the_epoch() {
    assert_eq!(
        rtools_installer("40"),
        Download {
            url: "https://cloud.r-project.org/bin/windows/Rtools/rtools40-x86_64.exe".to_string(),
            file_name: "rtools40-x86_64.exe".to_string(),
        }
    );
    assert_eq!(
        rtools_installer("35"),
        Download {
            url: "https://cloud.r-project.org/bin/windows/Rtools/Rtools35.exe".to_string(),
            file_name: "Rtools35.exe".to_string(),
        }
    );
    assert_eq!(rtools_installer("devel").file_name, "rtoolsdevel-x86_64.exe");
    assert_eq!(rtools_installer("").file_name, "Rtools.exe");
}

#[test]
fn builds_are_installed_one_after_the_other() {
    let builds = strings(&["35", "40"]);
    assert_eq!(add_rtools(&builds, 0, RtoolsEvent::Ready), RtoolsStep::Install(rtools_installer("35")));
    assert_eq!(
        add_rtools(&builds, 1, RtoolsEvent::InstallerExited(Some(0))),
        RtoolsStep::Install(rtools_installer("40"))
    );
    assert_eq!(add_rtools(&builds, 2, RtoolsEvent::InstallerExited(Some(0))), RtoolsStep::Finish(Ok(())));
    assert_eq!(add_rtools(&Vec::new(), 0, RtoolsEvent::Ready), RtoolsStep::Finish(Ok(())));
}

#[test]
fn failed_rtools_installer_ends_the_batch() {
    let builds = strings(&["35", "40"]);
    assert_eq!(
        add_rtools(&builds, 1, RtoolsEvent::InstallerExited(Some(2))),
        RtoolsStep::Finish(Err(Error::InstallerFailure(Some(2))))
    );
    assert_eq!(
        add_rtools(&builds, 1, RtoolsEvent::InstallerExited(None)),
        RtoolsStep::Finish(Err(Error::InstallerFailure(None)))
    );
    assert_eq!(add_rtools(&builds, 0, RtoolsEvent::Failed(Error::Io)), RtoolsStep::Finish(Err(Error::Io)));
}

#[test]
fn version_query_asks_the_runtime_itself() {
    assert_eq!(
        version_query("4.1.0"),
        Command {
            program: "C:\\Program Files\\R\\R-4.1.0\\bin\\R.exe".to_string(),
            args: strings(&["--vanilla", "-s", "-e", "cat(as.character(getRversion()))"]),
        }
    );
}
