use filekit::action::{file_name, join_path, strip_prefix, FileAction, PathError};
use filekit::text::i32_decimal;

#[test]
fn strip_prefix_under_root() {
    assert_eq!(
        strip_prefix("/root/a/b.txt", "/root"),
        Some("a/b.txt".to_string())
    );
    assert_eq!(
        strip_prefix("/root/a/b.txt", "/root/"),
        Some("a/b.txt".to_string())
    );
    assert_eq!(strip_prefix("/root", "/root"), Some("".to_string()));
}

#[test]
fn strip_prefix_not_under_root() {
    assert_eq!(strip_prefix("/elsewhere/b.txt", "/root"), None);
    assert_eq!(strip_prefix("/rootless/b.txt", "/root"), None);
    assert_eq!(strip_prefix("/ro", "/root"), None);
}

#[test]
fn file_name_takes_the_last_component() {
    assert_eq!(file_name("/tmp/x/c.txt"), Some("c.txt".to_string()));
    assert_eq!(file_name("c.txt"), Some("c.txt".to_string()));
    assert_eq!(file_name("/tmp/x/"), None);
    assert_eq!(file_name(""), None);
}

#[test]
fn join_path_uses_a_single_separator() {
    assert_eq!(join_path("/out", "a/b.txt"), "/out/a/b.txt");
    assert_eq!(join_path("/out/", "a/b.txt"), "/out/a/b.txt");
    assert_eq!(join_path("/out", ""), "/out");
    assert_eq!(join_path("", "a"), "a");
}

#[test]
fn move_destination_with_and_without_root() {
    assert_eq!(
        FileAction::move_destination("/root/a/b.txt", Some("/root"), "/out"),
        Ok("/out/a/b.txt".to_string())
    );
    assert_eq!(
        FileAction::move_destination("/tmp/x/c.txt", None, "/out"),
        Ok("/out/c.txt".to_string())
    );
    assert_eq!(
        FileAction::move_destination("/tmp/x/c.txt", Some("/root"), "/out"),
        Err(PathError::NotUnderRoot)
    );
    assert_eq!(
        FileAction::move_destination("/tmp/x/", None, "/out"),
        Err(PathError::NoFileName)
    );
}

#[test]
fn decimal_rendering() {
    assert_eq!(i32_decimal(0), "0");
    assert_eq!(i32_decimal(42), "42");
    assert_eq!(i32_decimal(-1), "-1");
    assert_eq!(i32_decimal(i32::MAX), "2147483647");
    assert_eq!(i32_decimal(i32::MIN), "-2147483648");
}
