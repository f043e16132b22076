use rim::{sc_get_list, sc_rm, Error, RemovalEvent, RemovalStep};

fn strings(list: &[&str]) -> Vec<String> {
    list.iter().map(|s| s.to_string()).collect()
}

/// Runs a batch against a root that holds `entries`, removing the directory
/// that each step names, and gives back what was removed and how it ended.
fn run(entries: &[&str], versions: &[&str], failing: Option<&str>) -> (Vec<String>, Result<(), Error>, Vec<String>) {
    let mut entries = strings(entries);
    let versions = strings(versions);
    let mut removed = Vec::new();
    let mut position = 0;
    let mut event = RemovalEvent::Ready;
    loop {
        let installed = sc_get_list(Some(&entries)).unwrap();
        match sc_rm(&versions, &installed, position, event) {
            RemovalStep::Remove(directory) => {
                assert!(removed.len() <= versions.len());
                if Some(directory.as_str()) == failing {
                    event = RemovalEvent::Failed(Error::Io);
                } else {
                    let name = directory.strip_prefix("C:\\Program Files\\R\\").map(|s| s.to_string());
                    entries.retain(|e| Some(e) != name.as_ref());
                    removed.push(directory);
                    position += 1;
                    event = RemovalEvent::Ready;
                }
            }
            RemovalStep::Finish(outcome) => return (removed, outcome, entries),
        }
    }
}

#[test]
fn removing_a_version_that_is_not_installed_deletes_nothing() {
    let (removed, outcome, left) = run(&["R-3.6.3", "R-4.0.0"], &["4.1.0"], None);
    assert!(removed.is_empty());
    assert_eq!(outcome, Err(Error::NotInstalled("4.1.0".to_string())));
    assert_eq!(left, strings(&["R-3.6.3", "R-4.0.0"]));
    assert_eq!(
        sc_rm(&strings(&["4.1.0"]), &Vec::new(), 0, RemovalEvent::Ready),
        RemovalStep::Finish(Err(Error::NotInstalled("4.1.0".to_string())))
    );
}

#[test]
fn batch_stops_at_the_first_version_that_is_not_installed() {
    let (removed, outcome, left) = run(&["R-4.1.0"], &["4.1.0", "9.9.9"], None);
    assert_eq!(removed, strings(&["C:\\Program Files\\R\\R-4.1.0"]));
    assert_eq!(outcome, Err(Error::NotInstalled("9.9.9".to_string())));
    assert!(left.is_empty());
}

#[test]
fn entries_behind_the_failing_one_are_not_attempted() {
    let (removed, outcome, left) = run(&["R-3.6.3", "R-4.1.0"], &["4.1.0", "9.9.9", "3.6.3"], None);
    assert_eq!(removed, strings(&["C:\\Program Files\\R\\R-4.1.0"]));
    assert_eq!(outcome, Err(Error::NotInstalled("9.9.9".to_string())));
    assert_eq!(left, strings(&["R-3.6.3"]));
}

#[test]
fn whole_batch_is_removed_in_order() {
    let (removed, outcome, left) = run(&["R-3.6.3", "R-4.0.0", "R-4.1.0", "bin"], &["4.1.0", "3.6.3"], None);
    assert_eq!(removed, strings(&["C:\\Program Files\\R\\R-4.1.0", "C:\\Program Files\\R\\R-3.6.3"]));
    assert_eq!(outcome, Ok(()));
    assert_eq!(left, strings(&["R-4.0.0", "bin"]));
}

#[test]
fn empty_batch_finishes_at_once() {
    let (removed, outcome, _) = run(&["R-4.1.0"], &[], None);
    assert!(removed.is_empty());
    assert_eq!(outcome, Ok(()));
}

#[test]
fn version_named_twice_fails_the_second_time() {
    let (removed, outcome, _) = run(&["R-4.1.0"], &["4.1.0", "4.1.0"], None);
    assert_eq!(removed.len(), 1);
    assert_eq!(outcome, Err(Error::NotInstalled("4.1.0".to_string())));
}

#[test]
fn failed_removal_ends_the_batch() {
    let (removed, outcome, left) =
        run(&["R-3.6.3", "R-4.1.0"], &["4.1.0", "3.6.3"], Some("C:\\Program Files\\R\\R-4.1.0"));
    assert!(removed.is_empty());
    assert_eq!(outcome, Err(Error::Io));
    assert_eq!(left, strings(&["R-3.6.3", "R-4.1.0"]));
    assert_eq!(
        sc_rm(&strings(&["4.1.0"]), &strings(&["4.1.0"]), 0, RemovalEvent::Failed(Error::Io)),
        RemovalStep::Finish(Err(Error::Io))
    );
}
