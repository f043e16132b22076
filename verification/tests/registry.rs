use rim::registry::R_ROOT;
use rim::{
    install_dir, is_installed, sc_get_list, sc_system_fix_permissions, sc_system_forget,
    sc_system_make_orthogonal, Error,
};

fn names(list: &[&str]) -> Vec<String> {
    list.iter().map(|s| s.to_string()).collect()
}

#[test]
fn lists_installations_in_lexicographic_order() {
    let entries = names(&["R-3.6.3", "R-4.1.0", "notR-x", "R-4.0.0"]);
    assert_eq!(sc_get_list(Some(&entries)), Ok(names(&["3.6.3", "4.0.0", "4.1.0"])));
}

#[test]
fn order_is_by_characters_not_by_numbers() {
    let entries = names(&["R-4.9.0", "R-4.10.0"]);
    assert_eq!(sc_get_list(Some(&entries)), Ok(names(&["4.10.0", "4.9.0"])));
}

#[test]
fn listing_of_an_empty_root_is_empty() {
    assert_eq!(sc_get_list(Some(&Vec::new())), Ok(Vec::<String>::new()));
}

#[test]
fn listing_of_a_root_that_cannot_be_scanned_fails() {
    assert_eq!(sc_get_list(None), Err(Error::Io));
}

#[test]
fn listing_skips_names_without_the_prefix() {
    let entries = names(&["bin", "R", "", "r-4.1.0", "xR-4.1.0", "R_4.1.0"]);
    assert_eq!(sc_get_list(Some(&entries)), Ok(Vec::<String>::new()));
}

#[test]
fn listing_keeps_an_empty_version_and_devel() {
    let entries = names(&["R-devel", "R-", "R-4.2.1"]);
    assert_eq!(sc_get_list(Some(&entries)), Ok(names(&["", "4.2.1", "devel"])));
}

#[test]
fn a_prefix_sorts_before_its_extensions() {
    let entries = names(&["R-4.1.0-patched", "R-4.1", "R-4.1.0"]);
    assert_eq!(sc_get_list(Some(&entries)), Ok(names(&["4.1", "4.1.0", "4.1.0-patched"])));
}

#[test]
fn listing_agrees_with_the_order_of_strings() {
    let entries = names(&["R-é", "R-z", "R-Z", "R-10", "R-9", "R-\u{1F600}", "R-~", "R-€"]);
    let mut expected = names(&["é", "z", "Z", "10", "9", "\u{1F600}", "~", "€"]);
    expected.sort();
    assert_eq!(sc_get_list(Some(&entries)), Ok(expected));
}

#[test]
fn a_name_found_twice_is_listed_twice() {
    let entries = names(&["R-4.1.0", "R-3.6.3", "R-4.1.0"]);
    assert_eq!(sc_get_list(Some(&entries)), Ok(names(&["3.6.3", "4.1.0", "4.1.0"])));
}

#[test]
fn is_installed_is_membership_in_the_listing() {
    let installed = sc_get_list(Some(&names(&["R-3.6.3", "R-4.1.0", "notR-x"]))).unwrap();
    assert!(is_installed(&installed, "3.6.3"));
    assert!(is_installed(&installed, "4.1.0"));
    assert!(!is_installed(&installed, "4.1"));
    assert!(!is_installed(&installed, "x"));
    assert!(!is_installed(&Vec::new(), "4.1.0"));
}

#[test]
fn install_dir_is_a_child_of_the_root() {
    assert_eq!(R_ROOT, "C:\\Program Files\\R");
    assert_eq!(install_dir("4.1.0"), "C:\\Program Files\\R\\R-4.1.0");
    assert_eq!(install_dir("devel"), "C:\\Program Files\\R\\R-devel");
}

#[test]
fn the_hooks_without_work_return() {
    sc_system_forget();
    sc_system_make_orthogonal();
    sc_system_fix_permissions();
}
