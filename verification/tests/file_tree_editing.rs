use rift::file_tree::editing::DraggedRow;
use rift::file_tree::{FileTree, FileTreeEvent};
use rift::protocol::{EntryKind, FileOp, FileOpError, WorktreeEntry};

fn file(path: &str) -> WorktreeEntry {
    WorktreeEntry { path: path.to_owned(), kind: EntryKind::File, ignored: false }
}

fn dir(path: &str) -> WorktreeEntry {
    WorktreeEntry { path: path.to_owned(), kind: EntryKind::Dir, ignored: false }
}

fn seed(entries: Vec<WorktreeEntry>) -> FileTree {
    let mut tree = FileTree::new();
    tree.model_mut().apply_snapshot_chunk("/proj".into(), entries, true);
    tree
}

/// A tree of one file, with the cursor on it.
fn seed_main_selected() -> FileTree {
    let mut tree = seed(vec![file("src/main.rs")]);
    tree.click_file("src/main.rs");
    tree
}

/// A tree of the directory `src`, with the cursor on it.
fn seed_src_selected() -> FileTree {
    let mut tree = seed(vec![dir("src")]);
    tree.click_file("src");
    tree
}

fn rename_main() -> FileOp {
    FileOp::Rename { from: "src/main.rs".into(), to: "src/lib.rs".into() }
}

#[test]
fn test_open_filter_activates_and_seeds_a_blank_focused_input() {
    let mut tree = FileTree::new();
    tree.open_filter();
    assert!(tree.filter_active());
    assert!(tree.filter_query().is_empty());
}

#[test]
fn test_close_filter_clears_the_query_and_deactivates() {
    let mut tree = FileTree::new();
    tree.open_filter();
    tree.filter_changed("main");
    assert_eq!(tree.filter_query(), "main");
    tree.close_filter();
    assert!(!tree.filter_active());
    assert!(tree.filter_query().is_empty());
}

#[test]
fn test_toggle_filter_opens_then_closes() {
    let mut tree = FileTree::new();
    tree.toggle_filter();
    assert!(tree.filter_active());

    tree.toggle_filter();
    assert!(!tree.filter_active());
}

#[test]
fn test_click_file_sets_cursor_clears_multiset_and_emits_open_file() {
    let mut tree = seed(vec![file("a.rs"), file("b.rs")]);
    tree.toggle_selection("a.rs");
    let event = tree.click_file("b.rs");

    assert_eq!(tree.selected(), Some("b.rs"));
    assert!(!tree.is_in_selection("a.rs"));
    assert!(!tree.is_in_selection("b.rs"));
    assert_eq!(event, FileTreeEvent::OpenFile { path: "b.rs".into() });
}

#[test]
fn test_open_selected_with_a_multiselection_emits_open_file_per_selected_file() {
    let mut tree = seed(vec![file("a.rs"), file("b.rs"), file("c.rs")]);
    tree.toggle_selection("a.rs");
    tree.toggle_selection("c.rs");
    let events = tree.open_selected();

    assert_eq!(
        events,
        [
            FileTreeEvent::OpenFile { path: "a.rs".into() },
            FileTreeEvent::OpenFile { path: "c.rs".into() },
        ]
    );
}

#[test]
fn test_open_selected_with_an_empty_multiselection_falls_back_to_the_cursor() {
    let mut tree = seed(vec![file("a.rs")]);
    tree.click_file("a.rs");
    let events = tree.open_selected();

    assert_eq!(events, [FileTreeEvent::OpenFile { path: "a.rs".into() }]);
}

#[test]
fn test_start_rename_with_selection_opens_editor_seeded_to_display_name() {
    let mut tree = seed_main_selected();
    tree.start_rename();

    let editor = tree.rename_editor().expect("rename editor opened");
    assert_eq!(editor.path, "src/main.rs");
    assert_eq!(editor.name, "main.rs");
    assert!(editor.error.is_none());
}

#[test]
fn test_start_rename_with_no_selection_is_noop() {
    let mut tree = FileTree::new();
    tree.start_rename();
    assert!(tree.rename_editor().is_none());
}

#[test]
fn test_commit_rename_emits_rename_requested_and_closes_editor() {
    let mut tree = seed_main_selected();
    tree.start_rename();
    let event = tree.commit_rename("lib.rs");

    assert!(tree.rename_editor().is_none(), "the editor closes immediately on commit");
    assert_eq!(
        event,
        Some(FileTreeEvent::RenameRequested {
            from: "src/main.rs".into(),
            to: "src/lib.rs".into(),
        })
    );
}

#[test]
fn test_commit_rename_with_blank_name_sends_nothing() {
    let mut tree = seed_main_selected();
    tree.start_rename();
    assert_eq!(tree.commit_rename("   "), None, "a blank name asks for nothing");
}

#[test]
fn test_commit_rename_with_slash_in_name_sends_nothing() {
    let mut tree = seed_main_selected();
    tree.start_rename();
    assert_eq!(
        tree.commit_rename("nested/lib.rs"),
        None,
        "a typed slash would move the file"
    );
}

#[test]
fn test_commit_rename_with_unchanged_name_sends_nothing() {
    let mut tree = seed_main_selected();
    tree.start_rename();
    assert_eq!(tree.commit_rename("main.rs"), None, "the unchanged name asks for nothing");
}

#[test]
fn test_cancel_rename_closes_editor_with_no_event() {
    let mut tree = seed_main_selected();
    tree.start_rename();
    assert!(tree.rename_editor().is_some());
    tree.cancel_rename();
    assert!(tree.rename_editor().is_none());
}

#[test]
fn test_apply_file_op_result_ok_rename_arms_pending_reveal() {
    let mut tree = seed_main_selected();
    tree.start_rename();
    tree.commit_rename("lib.rs");
    assert!(tree.rename_editor().is_none(), "closed on commit");

    tree.apply_file_op_result(rename_main(), true, None);

    assert!(tree.rename_editor().is_none());
    assert_eq!(tree.pending_reveal(), Some("src/lib.rs"));
}

#[test]
fn test_apply_file_op_result_already_exists_reopens_editor_with_error() {
    let mut tree = seed_main_selected();
    tree.start_rename();
    tree.commit_rename("lib.rs");
    assert!(tree.rename_editor().is_none(), "closed on commit");

    tree.apply_file_op_result(rename_main(), false, Some(FileOpError::AlreadyExists));

    let editor = tree.rename_editor().expect("the reply opens the editor again");
    assert_eq!(editor.path, "src/main.rs", "targets the unmoved file");
    assert_eq!(editor.name, "lib.rs", "the typed name is kept");
    assert!(editor.error.is_some(), "the error is shown");
}

#[test]
fn test_apply_file_op_result_not_found_does_not_reopen_the_editor() {
    let mut tree = FileTree::new();
    tree.apply_file_op_result(rename_main(), false, Some(FileOpError::NotFound));
    assert!(tree.rename_editor().is_none());
}

#[test]
fn test_handle_drop_onto_a_directory_emits_rename_requested() {
    let tree = seed(vec![dir("src"), file("top.rs")]);
    let dragged = DraggedRow { path: "top.rs".into(), kind: EntryKind::File };

    assert_eq!(
        tree.handle_drop(&dragged, EntryKind::Dir, "src"),
        Some(FileTreeEvent::RenameRequested {
            from: "top.rs".into(),
            to: "src/top.rs".into(),
        })
    );
}

#[test]
fn test_handle_drop_same_parent_noop_sends_nothing() {
    let tree = seed(vec![dir("src"), file("src/main.rs")]);
    let dragged = DraggedRow { path: "src/main.rs".into(), kind: EntryKind::File };

    assert_eq!(tree.handle_drop(&dragged, EntryKind::Dir, "src"), None);
}

#[test]
fn test_handle_drop_directory_into_its_own_descendant_sends_nothing() {
    let tree = seed(vec![dir("src"), dir("src/net")]);
    let dragged = DraggedRow { path: "src".into(), kind: EntryKind::Dir };

    assert_eq!(tree.handle_drop(&dragged, EntryKind::Dir, "src/net"), None);
}

#[test]
fn test_start_create_with_a_directory_selected_opens_editor_under_itself() {
    let mut tree = seed(vec![dir("src"), file("src/main.rs")]);
    tree.click_file("src");
    tree.start_create(EntryKind::File);

    let editor = tree.create_editor().expect("create editor opened");
    assert_eq!(editor.parent, "src");
    assert_eq!(editor.kind, EntryKind::File);
    assert_eq!(editor.name, "");
    assert!(editor.error.is_none());

    tree.refresh_row_cache();
    let row = tree.rows().iter().find(|r| r.is_pending_create).expect("row inserted");
    assert_eq!(row.depth, 1, "one level deeper than its parent");
}

#[test]
fn test_start_create_with_a_file_selected_targets_its_parent() {
    let mut tree = seed(vec![dir("src"), file("src/main.rs")]);
    tree.click_file("src/main.rs");
    tree.start_create(EntryKind::Dir);

    let editor = tree.create_editor().expect("create editor opened");
    assert_eq!(editor.parent, "src");
    assert_eq!(editor.kind, EntryKind::Dir);
}

#[test]
fn test_start_create_with_nothing_selected_targets_the_root() {
    let mut tree = seed(vec![file("a.rs")]);
    tree.start_create(EntryKind::File);

    let editor = tree.create_editor().expect("create editor opened");
    assert_eq!(editor.parent, "");

    tree.refresh_row_cache();
    let index = tree.rows().iter().position(|r| r.is_pending_create).expect("row inserted");
    assert_eq!(index, 0, "the root's new row leads the list");
    assert_eq!(tree.rows()[index].depth, 0);
}

#[test]
fn test_start_create_expands_a_collapsed_target_directory() {
    let mut tree = seed(vec![dir("src"), file("src/main.rs")]);
    tree.toggle_dir("src");
    assert!(tree.is_collapsed("src"));
    tree.click_file("src");
    tree.start_create(EntryKind::File);

    assert!(!tree.is_collapsed("src"), "the target expands so that the row shows");
}

#[test]
fn test_start_create_cancels_an_active_rename() {
    let mut tree = seed_main_selected();
    tree.start_rename();
    assert!(tree.rename_editor().is_some());
    tree.start_create(EntryKind::File);

    assert!(tree.rename_editor().is_none(), "only one editor at a time");
    assert!(tree.create_editor().is_some());
}

#[test]
fn test_start_create_before_any_snapshot_is_a_noop() {
    let mut tree = FileTree::new();
    tree.start_create(EntryKind::File);
    assert!(tree.create_editor().is_none());
}

#[test]
fn test_commit_create_emits_create_requested_and_closes_editor() {
    let mut tree = seed_src_selected();
    tree.start_create(EntryKind::File);
    let event = tree.commit_create("new.rs");

    assert!(tree.create_editor().is_none(), "the editor closes immediately on commit");
    assert_eq!(
        event,
        Some(FileTreeEvent::CreateRequested {
            path: "src/new.rs".into(),
            kind: EntryKind::File,
        })
    );
}

#[test]
fn test_commit_create_dir_at_the_root_emits_create_requested_with_dir_kind() {
    let mut tree = seed(vec![file("a.rs")]);
    tree.start_create(EntryKind::Dir);

    assert_eq!(
        tree.commit_create("newdir"),
        Some(FileTreeEvent::CreateRequested { path: "newdir".into(), kind: EntryKind::Dir })
    );
}

#[test]
fn test_commit_create_with_blank_name_sends_nothing() {
    let mut tree = seed_src_selected();
    tree.start_create(EntryKind::File);
    assert_eq!(tree.commit_create("   "), None);
}

#[test]
fn test_commit_create_with_slash_in_name_sends_nothing() {
    let mut tree = seed_src_selected();
    tree.start_create(EntryKind::File);
    assert_eq!(tree.commit_create("nested/new.rs"), None);
}

#[test]
fn test_cancel_create_closes_editor_with_no_event() {
    let mut tree = seed_src_selected();
    tree.start_create(EntryKind::File);
    assert!(tree.create_editor().is_some());
    tree.cancel_create();
    assert!(tree.create_editor().is_none());
}

#[test]
fn test_apply_file_op_result_ok_create_file_arms_pending_reveal() {
    let mut tree = FileTree::new();
    tree.apply_file_op_result(FileOp::CreateFile { path: "src/new.rs".into() }, true, None);

    assert!(tree.create_editor().is_none());
    assert_eq!(tree.pending_reveal(), Some("src/new.rs"));
}

#[test]
fn test_apply_file_op_result_already_exists_create_dir_reopens_editor_with_error() {
    let mut tree = FileTree::new();
    tree.apply_file_op_result(
        FileOp::CreateDir { path: "src/newdir".into() },
        false,
        Some(FileOpError::AlreadyExists),
    );

    let editor = tree.create_editor().expect("the reply opens the editor again");
    assert_eq!(editor.parent, "src");
    assert_eq!(editor.kind, EntryKind::Dir);
    assert_eq!(editor.name, "newdir");
    assert!(editor.error.is_some());
}

#[test]
fn test_apply_file_op_result_not_found_does_not_reopen_the_create_editor() {
    let mut tree = FileTree::new();
    tree.apply_file_op_result(
        FileOp::CreateFile { path: "src/new.rs".into() },
        false,
        Some(FileOpError::NotFound),
    );
    assert!(tree.create_editor().is_none());
}

#[test]
fn test_confirm_delete_with_nothing_selected_opens_no_dialog() {
    let tree = FileTree::new();
    assert!(tree.confirm_delete().is_none());
}

#[test]
fn test_confirm_delete_with_a_selection_opens_the_confirm_dialog() {
    let tree = seed_main_selected();
    let prompt = tree.confirm_delete().expect("a question is asked");
    assert_eq!(prompt.path, "src/main.rs");
}
