use rim::{has_marker, patch_for_rtools, renviron_path, rtools_stanza, Epoch};

const EARLIER: &str = "\n# added by rim, do not update by hand-----\nPATH=\"C:\\Rtools\\bin;${PATH}\"\n# ----------------------------------------\n\n";
const FOUR: &str = "\n# added by rim, do not update by hand-----\nPATH=\"${RTOOLS40_HOME}\\ucrt64\\bin;${RTOOLS40_HOME}\\usr\\bin;${PATH}\"\n# ----------------------------------------\n\n";

fn apply(version: &str, current: Option<String>) -> String {
    let append = patch_for_rtools(version, current.as_deref());
    let mut text = current.unwrap_or_default();
    if let Some(block) = append {
        text.push_str(&block);
    }
    text
}

#[test]
fn stanza_text_is_exact() {
    assert_eq!(rtools_stanza(Epoch::Earlier), EARLIER);
    assert_eq!(rtools_stanza(Epoch::FourOrDevel), FOUR);
}

#[test]
fn epoch_is_read_off_the_first_character() {
    assert_eq!(Epoch::of("3.6.3"), Epoch::Earlier);
    assert_eq!(Epoch::of("4.1.0"), Epoch::FourOrDevel);
    assert_eq!(Epoch::of("4"), Epoch::FourOrDevel);
    assert_eq!(Epoch::of("40"), Epoch::FourOrDevel);
    assert_eq!(Epoch::of("devel"), Epoch::FourOrDevel);
    assert_eq!(Epoch::of("35"), Epoch::Earlier);
    assert_eq!(Epoch::of(""), Epoch::Earlier);
    assert_eq!(Epoch::of("develop"), Epoch::Earlier);
    assert_eq!(Epoch::of("deve"), Epoch::Earlier);
    assert_eq!(Epoch::of("14.0"), Epoch::Earlier);
    assert_eq!(Epoch::of("5.0.0"), Epoch::Earlier);
}

#[test]
fn stanza_is_selected_by_epoch() {
    assert_eq!(patch_for_rtools("3.6.3", None), Some(EARLIER.to_string()));
    assert_eq!(patch_for_rtools("4.1.0", None), Some(FOUR.to_string()));
    assert_eq!(patch_for_rtools("devel", None), Some(FOUR.to_string()));
    assert_eq!(patch_for_rtools("3.6.3", Some("R_LIBS=x\n")), Some(EARLIER.to_string()));
    assert_eq!(patch_for_rtools("4.1.0", Some("")), Some(FOUR.to_string()));
}

#[test]
fn patching_twice_changes_nothing_more() {
    for version in ["3.6.3", "4.1.0", "devel", ""] {
        for current in [None, Some(""), Some("R_LIBS=x"), Some("R_LIBS=x\n"), Some("a\r\nb\r\n")] {
            let once = apply(version, current.map(|s| s.to_string()));
            let twice = apply(version, Some(once.clone()));
            assert_eq!(once, twice);
            assert_eq!(patch_for_rtools("4.1.0", Some(&once)), None);
            assert_eq!(patch_for_rtools("3.6.3", Some(&once)), None);
        }
    }
}

#[test]
fn patch_appends_to_what_the_file_holds() {
    assert_eq!(apply("3.6.3", Some("R_LIBS=x".to_string())), format!("R_LIBS=x{}", EARLIER));
    assert_eq!(apply("4.1.0", None), FOUR);
}

#[test]
fn a_patched_file_is_left_alone() {
    let text = "# added by rim, do not update by hand-----\nPATH=x\n";
    assert_eq!(patch_for_rtools("4.1.0", Some(text)), None);
    assert_eq!(apply("4.1.0", Some(text.to_string())), text);
}

#[test]
fn marker_counts_at_the_start_of_a_line_only() {
    assert!(has_marker("# added by rim"));
    assert!(has_marker("# added by rim, by hand"));
    assert!(has_marker("x=1\n# added by rim\n"));
    assert!(has_marker("x=1\r\n# added by rim\r\n"));
    assert!(has_marker("\n\n# added by rimmel"));
    assert!(!has_marker(""));
    assert!(!has_marker("# added by ri"));
    assert!(!has_marker(" # added by rim"));
    assert!(!has_marker("x # added by rim\n"));
    assert!(!has_marker("# added by\n rim\n"));
    assert!(!has_marker("# Added by rim\n"));
    assert!(!has_marker("x=1\r# added by rim\n"));
    assert!(!has_marker("é# added by rim"));
    assert!(has_marker("é\n# added by rim"));
}

#[test]
fn renviron_path_lies_in_the_installation() {
    assert_eq!(renviron_path("4.1.0"), "C:\\Program Files\\R\\R-4.1.0\\etc\\Renviron.site");
}
