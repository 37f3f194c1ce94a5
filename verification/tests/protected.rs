use openrust_core::tool::check_protected;

#[test]
fn system_paths_are_refused() {
    assert!(check_protected("/").is_err());
    assert!(check_protected("/etc/passwd").is_err());
    assert!(check_protected("/etc/fake_test_xyz").is_err());
    assert!(check_protected("/usr").is_err());
    assert_eq!(check_protected("/etc").unwrap_err(), "protected system path");
}

#[test]
fn other_paths_pass() {
    assert!(check_protected("/tmp/openrust_rm_dir").is_ok());
    assert!(check_protected("/etcetera/x").is_ok());
    assert!(check_protected("/home/user/usr/file").is_ok());
    assert!(check_protected("relative/etc").is_ok());
}
