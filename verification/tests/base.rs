use lunactl::base::{
    entry_version_of, find_latest_version, DirLayout, LunaInstall, StateError,
};
use lunactl::helpers::{contains_substr, join_path, parse_int_or_zero, starts_with};

fn empty_layout() -> DirLayout {
    DirLayout { app_dir: None, app_asar: None, orig_asar: None, scratch: None }
}

#[test]
fn test_luna_install_new() {
    let luna = LunaInstall::mock();
    assert!(!luna.install_path.is_empty());
    assert!(!luna.temp_path.is_empty());
}

#[test]
fn mock_paths_are_joined_from_the_mock_root() {
    let luna = LunaInstall::mock();
    assert_eq!(luna.install_path, "mock-install");
    assert_eq!(luna.temp_path, "mock-temp");
    assert_eq!(luna.app_path, "mock-install/app");
    assert_eq!(luna.app_asar_path, "mock-install/app.asar");
    assert_eq!(luna.orig_asar_path, "mock-install/original.asar");
    assert!(!luna.installed());
}

#[test]
fn test_luna_install_invalid_path() {
    assert!(
        LunaInstall::new(
            String::from("/nonexistent/path"),
            false,
            false,
            String::from("scratch"),
            empty_layout(),
        )
        .is_err()
    );
}

#[test]
fn new_rejects_a_missing_path_by_name() {
    let r = LunaInstall::new(
        String::from("/nonexistent/path"),
        false,
        false,
        String::from("scratch"),
        empty_layout(),
    );
    assert_eq!(r.err(), Some(StateError::PathDoesNotExist));
}

#[test]
fn new_rejects_a_non_directory() {
    let r = LunaInstall::new(
        String::from("/some/file"),
        true,
        false,
        String::from("scratch"),
        empty_layout(),
    );
    assert_eq!(r.err(), Some(StateError::PathNotADirectory));
}

#[test]
fn new_accepts_an_existing_directory_and_resolves_paths() {
    let layout = DirLayout { app_dir: None, app_asar: Some(3), orig_asar: None, scratch: None };
    let luna = LunaInstall::new(
        String::from("/opt/target"),
        true,
        true,
        String::from("/tmp/stage"),
        layout,
    )
    .unwrap();
    assert_eq!(luna.install_path, "/opt/target");
    assert_eq!(luna.temp_path, "/tmp/stage");
    assert_eq!(luna.app_path, "/opt/target/app");
    assert_eq!(luna.app_asar_path, "/opt/target/app.asar");
    assert_eq!(luna.orig_asar_path, "/opt/target/original.asar");
    assert_eq!(luna.layout.app_asar, Some(3));
}

#[test]
fn installed_needs_both_signals() {
    let mut luna = LunaInstall::mock();
    assert!(!luna.installed());
    luna.layout.app_dir = Some(1);
    assert!(!luna.installed());
    luna.layout.orig_asar = Some(2);
    assert!(luna.installed());
    luna.layout.app_dir = None;
    assert!(!luna.installed());
}

#[test]
fn join_path_inserts_separator() {
    assert_eq!(join_path("a", "b"), "a/b");
    assert_eq!(join_path("/opt/x", "app.asar"), "/opt/x/app.asar");
}

#[test]
fn join_path_keeps_existing_separator() {
    assert_eq!(join_path("a/", "b"), "a/b");
}

#[test]
fn join_path_of_empty_base_is_the_component() {
    assert_eq!(join_path("", "b"), "b");
}

#[test]
fn join_path_lets_an_absolute_component_replace_the_base() {
    assert_eq!(join_path("a", "/b"), "/b");
    assert_eq!(join_path("/opt/x/", "/etc/y"), "/etc/y");
    assert_eq!(join_path("", "/b"), "/b");
}

#[test]
fn starts_with_finds_prefixes() {
    assert!(starts_with("app-1.2.3", "app-"));
    assert!(!starts_with("ap", "app-"));
    assert!(!starts_with("xapp-1", "app-"));
    assert!(starts_with("anything", ""));
}

#[test]
fn contains_substr_finds_needles() {
    assert!(contains_substr("TidaLuna-luna.zip", "luna.zip"));
    assert!(contains_substr("luna.zip", "luna.zip"));
    assert!(!contains_substr("luna.tar.gz", "luna.zip"));
    assert!(contains_substr("abc", ""));
    assert!(!contains_substr("", "a"));
}

#[test]
fn parse_int_accepts_plain_and_signed_numbers() {
    assert_eq!(parse_int_or_zero(&"123".chars().collect()), 123);
    assert_eq!(parse_int_or_zero(&"+42".chars().collect()), 42);
    assert_eq!(parse_int_or_zero(&"-7".chars().collect()), -7);
    assert_eq!(parse_int_or_zero(&"0".chars().collect()), 0);
}

#[test]
fn parse_int_folds_failures_to_zero() {
    assert_eq!(parse_int_or_zero(&"".chars().collect()), 0);
    assert_eq!(parse_int_or_zero(&"-".chars().collect()), 0);
    assert_eq!(parse_int_or_zero(&"12a".chars().collect()), 0);
    assert_eq!(parse_int_or_zero(&" 12".chars().collect()), 0);
    assert_eq!(parse_int_or_zero(&"9999999999".chars().collect()), 0);
}

#[test]
fn parse_int_honours_the_32_bit_range() {
    assert_eq!(parse_int_or_zero(&"2147483647".chars().collect()), 2147483647);
    assert_eq!(parse_int_or_zero(&"2147483648".chars().collect()), 0);
    assert_eq!(parse_int_or_zero(&"-2147483648".chars().collect()), -2147483648);
    assert_eq!(parse_int_or_zero(&"-2147483649".chars().collect()), 0);
}

#[test]
fn entry_version_reads_app_entries() {
    assert_eq!(entry_version_of("app-1.2.3"), 123);
    assert_eq!(entry_version_of("app-5.39.0/"), 5390);
    assert_eq!(entry_version_of("app-7"), 7);
    assert_eq!(entry_version_of("app-1.2.3//"), 123);
}

#[test]
fn entry_version_of_other_names_is_zero() {
    assert_eq!(entry_version_of("application-1.2"), 0);
    assert_eq!(entry_version_of("app-"), 0);
    assert_eq!(entry_version_of("app-x.y"), 0);
    assert_eq!(entry_version_of("resources"), 0);
    assert_eq!(entry_version_of(""), 0);
}

#[test]
fn find_latest_version_picks_the_greatest() {
    let names = vec![
        String::from("app-1.0.0"),
        String::from("app-1.2.0"),
        String::from("junk"),
        String::from("app-0.9.9"),
    ];
    assert_eq!(find_latest_version(&names), Some(String::from("app-1.2.0")));
}

#[test]
fn find_latest_version_keeps_the_first_of_equals() {
    let names = vec![String::from("app-2.0"), String::from("app-20")];
    assert_eq!(find_latest_version(&names), Some(String::from("app-2.0")));
}

#[test]
fn find_latest_version_of_no_candidates_is_none() {
    assert_eq!(find_latest_version(&Vec::new()), None);
    let names = vec![String::from("junk"), String::from("app-x")];
    assert_eq!(find_latest_version(&names), None);
    let negatives = vec![String::from("app--3")];
    assert_eq!(find_latest_version(&negatives), None);
}
