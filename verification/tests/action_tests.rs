use filekit::action::{FileAction, FileActionResult, PathError};

fn moved_path(r: Result<FileActionResult, PathError>) -> String {
    match r {
        Ok(FileActionResult::Moved(p)) => p,
        other => panic!("expected a move, got {:?}", other),
    }
}

#[test]
fn rooted_move_keeps_relative_structure() {
    let action = FileAction {
        delete: false,
        move_to: Some("/out".to_string()),
    };
    let r = action.execute("/root/a/b.txt", Some("/root"));
    assert_eq!(moved_path(r), "/out/a/b.txt");
}

#[test]
fn unrooted_move_discards_structure() {
    let action = FileAction {
        delete: false,
        move_to: Some("/out".to_string()),
    };
    let r = action.execute("/tmp/x/c.txt", None);
    assert_eq!(moved_path(r), "/out/c.txt");
}

#[test]
fn delete_yields_the_original_path() {
    let action = FileAction {
        delete: true,
        move_to: None,
    };
    let r = action.execute("/tmp/x/c.txt", None);
    match r {
        Ok(FileActionResult::Deleted(p)) => assert_eq!(p, "/tmp/x/c.txt"),
        other => panic!("expected a delete, got {:?}", other),
    }
}

#[test]
fn no_op_action_does_nothing() {
    let action = FileAction {
        delete: false,
        move_to: None,
    };
    let r = action.execute("/tmp/x/c.txt", None);
    assert!(matches!(r, Ok(FileActionResult::Nothing)));
}

#[test]
fn move_takes_precedence_over_delete() {
    let action = FileAction {
        delete: true,
        move_to: Some("/out".to_string()),
    };
    let r = action.execute("/tmp/x/c.txt", None);
    assert_eq!(moved_path(r), "/out/c.txt");
}

#[test]
fn file_outside_root_is_refused() {
    let action = FileAction {
        delete: false,
        move_to: Some("/out".to_string()),
    };
    let r = action.execute("/elsewhere/c.txt", Some("/root"));
    assert!(matches!(r, Err(PathError::NotUnderRoot)));
}

#[test]
fn path_without_name_is_refused() {
    let action = FileAction {
        delete: false,
        move_to: Some("/out".to_string()),
    };
    let r = action.execute("/tmp/x/", None);
    assert!(matches!(r, Err(PathError::NoFileName)));
}

#[test]
fn root_with_trailing_slash_is_accepted() {
    let action = FileAction {
        delete: false,
        move_to: Some("/out".to_string()),
    };
    let r = action.execute("/root/a/b.txt", Some("/root/"));
    assert_eq!(moved_path(r), "/out/a/b.txt");
}

#[test]
fn target_with_trailing_slash_joins_cleanly() {
    let action = FileAction {
        delete: false,
        move_to: Some("/out/".to_string()),
    };
    let r = action.execute("/tmp/c.txt", None);
    assert_eq!(moved_path(r), "/out/c.txt");
}

#[test]
fn file_equal_to_root_moves_to_target_itself() {
    let action = FileAction {
        delete: false,
        move_to: Some("/out".to_string()),
    };
    let r = action.execute("/root", Some("/root"));
    assert_eq!(moved_path(r), "/out");
}
