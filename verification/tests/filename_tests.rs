use filekit::filename::{filename_from_header, splice_name};

#[test]
fn unit_filename_from_header() {
    assert_eq!(
        filename_from_header("inline; filename=\"test.jpg\""),
        Some("test.jpg".to_string())
    );
}

#[test]
fn unit_splice_name() {
    assert_eq!(splice_name("abc.pdf", &1), "abc_1.pdf");
    assert_eq!(splice_name("abc", &1), "abc_1");
    assert_eq!(splice_name("stuff.tar.gz", &2), "stuff.tar_2.gz");
}

#[test]
fn header_without_marker_gives_none() {
    assert_eq!(filename_from_header("inline"), None);
}

#[test]
fn header_without_quotes() {
    assert_eq!(
        filename_from_header("attachment; filename=report.pdf"),
        Some("report.pdf".to_string())
    );
}

#[test]
fn header_takes_first_marker() {
    assert_eq!(
        filename_from_header("filename=\"a.txt\"; filename=\"b.txt\""),
        Some("a.txt\"; filename=\"b.txt".to_string())
    );
}

#[test]
fn header_marker_alone() {
    assert_eq!(filename_from_header("filename="), Some("".to_string()));
}

#[test]
fn header_all_quotes() {
    assert_eq!(filename_from_header("filename=\"\"\""), Some("".to_string()));
}

#[test]
fn splice_negative_suffix() {
    assert_eq!(splice_name("abc.pdf", &-3), "abc_-3.pdf");
}

#[test]
fn splice_large_suffixes() {
    assert_eq!(splice_name("a.b", &2147483647), "a_2147483647.b");
    assert_eq!(splice_name("a.b", &-2147483648), "a_-2147483648.b");
    assert_eq!(splice_name("a.b", &0), "a_0.b");
}

#[test]
fn splice_hidden_file_has_no_extension() {
    assert_eq!(splice_name(".gitignore", &1), ".gitignore_1");
}

#[test]
fn splice_trailing_dot() {
    assert_eq!(splice_name("foo.", &1), "foo_1.");
}

#[test]
fn splice_empty_name() {
    assert_eq!(splice_name("", &7), "_7");
}

#[test]
fn splice_ignores_dots_in_earlier_components() {
    assert_eq!(splice_name("dir.v2/file", &1), "dir.v2/file_1");
    assert_eq!(splice_name("a/b.txt", &5), "a/b_5.txt");
}

#[test]
fn splice_hidden_file_in_directory() {
    assert_eq!(splice_name("a/.bashrc", &1), "a/.bashrc_1");
}
