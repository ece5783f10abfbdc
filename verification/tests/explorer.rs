use rift::emphasis::emphasis_segments;
use rift::file_tree::actions::TreeAction;
use rift::file_tree::editing::DraggedRow;
use rift::file_tree::presentation::{
    row_menu, MenuEntry, RowBody, RowFill, RowIcon, Tone, TreeContent,
};
use rift::file_tree::{FileTree, FileTreeEvent};
use rift::paths::{
    is_under, join_dir, leaf_name, parent_dir, path_depth, rename_target, resolve_drop,
};
use rift::protocol::{
    Diagnostic, DiagnosticSeverity, EntryKind, FileOp, FileOpError, GitEntryStatus, GitStatusCode,
    GitStatusEntry, Position, Range, WorktreeEntry,
};
use rift::rollup::GitRollupStatus;
use rift::sorting::stable_order;

fn file(path: &str) -> WorktreeEntry {
    WorktreeEntry { path: path.to_owned(), kind: EntryKind::File, ignored: false }
}

fn dir(path: &str) -> WorktreeEntry {
    WorktreeEntry { path: path.to_owned(), kind: EntryKind::Dir, ignored: false }
}

fn seed(entries: Vec<WorktreeEntry>) -> FileTree {
    let mut tree = FileTree::new();
    tree.model_mut().apply_snapshot_chunk("/home/me/rift".into(), entries, true);
    tree
}

fn paths_shown(tree: &mut FileTree) -> Vec<String> {
    tree.refresh_row_cache();
    tree.rows().iter().map(|row| row.path.clone()).collect()
}

fn warning() -> Diagnostic {
    Diagnostic {
        range: Range {
            start: Position { line: 0, character: 0 },
            end: Position { line: 0, character: 1 },
        },
        severity: DiagnosticSeverity::Warning,
        message: "unused".to_owned(),
        source: None,
        code: None,
    }
}

#[test]
fn root_label_is_the_uppercased_leaf_of_the_root() {
    let tree = seed(vec![file("a.rs")]);
    assert_eq!(tree.root_label(), Some("RIFT".to_owned()));
    assert_eq!(FileTree::new().root_label(), None);

    let mut sharp = FileTree::new();
    sharp.model_mut().apply_snapshot_chunk("/x/straße/".into(), vec![], true);
    assert_eq!(sharp.root_label(), Some("STRASSE".to_owned()));
}

#[test]
fn header_follows_the_collapse_and_filter_states() {
    let mut tree = seed(vec![dir("src"), file("src/a.rs")]);
    let header = tree.header();
    assert!(!header.offers_expand);
    assert_eq!(header.collapse_tooltip, "Collapse all");
    assert!(!header.filter_pressed);
    assert_eq!(header.filter_tooltip, "Filter files");

    tree.toggle_collapse_all();
    tree.toggle_filter();
    let header = tree.header();
    assert!(header.offers_expand);
    assert_eq!(header.collapse_tooltip, "Expand all");
    assert!(header.filter_pressed);
    assert_eq!(header.filter_tooltip, "Close filter");
}

#[test]
fn content_names_each_placeholder() {
    let mut loading = FileTree::new();
    assert_eq!(loading.content(), TreeContent::Loading);
    assert_eq!(TreeContent::Loading.placeholder(), Some("Loading\u{2026}"));

    let mut empty = seed(vec![]);
    assert_eq!(empty.content(), TreeContent::EmptyRoot);
    assert_eq!(TreeContent::EmptyRoot.placeholder(), Some("Empty folder"));

    let mut tree = seed(vec![file("a.rs")]);
    assert_eq!(tree.content(), TreeContent::Rows);
    assert_eq!(TreeContent::Rows.placeholder(), None);
    tree.open_filter();
    tree.filter_changed("zzz");
    assert_eq!(tree.content(), TreeContent::NoMatches);
    assert_eq!(TreeContent::NoMatches.placeholder(), Some("No matches"));
}

#[test]
fn present_row_shows_indent_icon_and_cursor() {
    let mut tree = seed(vec![dir("src"), dir("src/a"), file("src/a/b.rs")]);
    tree.click_file("src/a/b.rs");
    tree.refresh_row_cache();

    let top = tree.present_row(0);
    assert_eq!(top.indent, 8);
    assert!(top.guides.is_empty());
    assert_eq!(top.icon, RowIcon::FolderOpen);
    assert_eq!(top.fill, RowFill::Plain);

    let leaf = tree.present_row(2);
    assert_eq!(leaf.indent, 40);
    assert_eq!(leaf.guides, vec![8, 24]);
    assert_eq!(leaf.icon, RowIcon::File);
    assert_eq!(leaf.fill, RowFill::Cursor);
    assert_eq!(
        leaf.body,
        RowBody::Named { name: "b.rs".into(), spans: vec![("b.rs".into(), false)] }
    );
}

#[test]
fn present_row_hides_the_roll_up_of_an_expanded_directory() {
    let mut tree = seed(vec![dir("src"), file("src/a.rs")]);
    tree.model_mut().apply_git_update(
        vec![GitStatusEntry {
            path: "src/a.rs".into(),
            status: GitEntryStatus {
                index: GitStatusCode::Unmodified,
                worktree: GitStatusCode::Modified,
            },
        }],
        vec![],
    );
    tree.model_mut().apply_diagnostics("src/a.rs".into(), "rust".into(), vec![warning()]);
    tree.refresh_row_cache();

    let expanded = tree.present_row(0);
    assert_eq!(expanded.dot, None);
    assert_eq!(expanded.letter, None);
    assert_eq!(expanded.name_tone, Some(Tone::Warning));

    let leaf = tree.present_row(1);
    assert_eq!(leaf.dot, Some(Tone::Warning));
    assert_eq!(leaf.letter, Some(GitRollupStatus::Changed));

    tree.toggle_dir("src");
    tree.refresh_row_cache();
    let collapsed = tree.present_row(0);
    assert_eq!(collapsed.icon, RowIcon::FolderClosed);
    assert_eq!(collapsed.dot, Some(Tone::Warning));
    assert_eq!(collapsed.letter, Some(GitRollupStatus::Changed));
}

#[test]
fn present_row_marks_the_characters_that_the_filter_matched() {
    let mut tree = seed(vec![dir("src"), file("src/main.rs")]);
    tree.open_filter();
    tree.filter_changed("main");
    tree.refresh_row_cache();
    assert_eq!(
        tree.present_row(1).body,
        RowBody::Named {
            name: "main.rs".into(),
            spans: vec![("main".into(), true), (".rs".into(), false)],
        }
    );
}

#[test]
fn present_row_dims_an_ignored_entry() {
    let mut tree = seed(vec![WorktreeEntry {
        path: "target".into(),
        kind: EntryKind::Dir,
        ignored: true,
    }]);
    tree.refresh_row_cache();
    assert!(tree.present_row(0).dimmed);
}

#[test]
fn present_row_shows_the_editors_in_place_of_the_name() {
    let mut tree = seed(vec![dir("src"), file("src/a.rs")]);
    tree.click_file("src/a.rs");
    tree.start_rename();
    tree.refresh_row_cache();
    assert_eq!(tree.present_row(1).body, RowBody::Renaming { error: None });
    assert_eq!(tree.present_row(1).fill, RowFill::Plain);

    tree.cancel_rename();
    tree.start_create(EntryKind::File);
    tree.refresh_row_cache();
    assert_eq!(tree.rows().len(), 3);
    assert_eq!(tree.present_row(1).body, RowBody::Creating { error: None });
    assert_eq!(tree.present_row(1).indent, 24);
}

#[test]
fn row_menu_lists_reads_before_writes() {
    let menu = row_menu();
    assert_eq!(menu.len(), 11);
    assert_eq!(menu[0], MenuEntry::Item { label: "Open", action: TreeAction::OpenSelected });
    assert_eq!(menu[6], MenuEntry::Separator);
    assert_eq!(menu[10], MenuEntry::Item { label: "Delete", action: TreeAction::DeleteSelected });
}

#[test]
fn actions_hand_back_what_the_window_does() {
    let mut tree = seed(vec![dir("src"), file("src/a.rs"), file("z.rs")]);
    let out = tree.perform(TreeAction::SelectDown);
    assert_eq!(tree.selected(), Some("src"));
    assert_eq!(out.scroll, Some(0));

    tree.perform(TreeAction::ExpandOrSelectChild);
    assert_eq!(tree.selected(), Some("src/a.rs"));
    assert_eq!(
        tree.perform(TreeAction::OpenSelected).events,
        vec![FileTreeEvent::OpenFile { path: "src/a.rs".into() }]
    );
    assert_eq!(
        tree.perform(TreeAction::CopyAbsolutePath).clipboard,
        Some("/home/me/rift/src/a.rs".to_owned())
    );
    assert_eq!(
        tree.perform(TreeAction::CopyRelativePath).clipboard,
        Some("src/a.rs".to_owned())
    );
    assert_eq!(
        tree.perform(TreeAction::RevealInTerminal).events,
        vec![FileTreeEvent::RevealInTerminalRequested { dir: "/home/me/rift/src".into() }]
    );
    let prompt = tree.perform(TreeAction::DeleteSelected).prompt;
    assert_eq!(prompt.map(|prompt| prompt.path), Some("src/a.rs".to_owned()));

    tree.perform(TreeAction::SelectLast);
    assert_eq!(tree.selected(), Some("z.rs"));
    tree.perform(TreeAction::SelectFirst);
    assert_eq!(tree.selected(), Some("src"));
    tree.perform(TreeAction::CollapseAll);
    assert_eq!(paths_shown(&mut tree), vec!["src", "z.rs"]);
    tree.perform(TreeAction::StartRename);
    assert!(tree.rename_editor().is_some());
}

#[test]
fn actions_without_a_cursor_ask_for_nothing() {
    let mut tree = seed(vec![file("a.rs")]);
    for action in [
        TreeAction::OpenSelected,
        TreeAction::CopyAbsolutePath,
        TreeAction::CopyRelativePath,
        TreeAction::RevealInTerminal,
        TreeAction::DeleteSelected,
        TreeAction::RevealInTree,
    ] {
        let out = tree.perform(action);
        assert!(out.events.is_empty());
        assert_eq!(out.clipboard, None);
        assert!(out.prompt.is_none());
    }
    assert_eq!(tree.selected(), None);
}

#[test]
fn escape_closes_one_editor_at_a_time() {
    let mut tree = seed(vec![file("a.rs")]);
    assert!(!tree.escape());

    tree.open_filter();
    tree.click_file("a.rs");
    tree.start_rename();
    assert!(tree.escape());
    assert!(tree.rename_editor().is_none());
    assert!(tree.filter_active());
    assert!(tree.escape());
    assert!(!tree.filter_active());
    assert!(!tree.escape());
}

#[test]
fn context_click_moves_the_cursor_and_keeps_the_selection() {
    let mut tree = seed(vec![file("a.rs"), file("b.rs")]);
    tree.toggle_selection("a.rs");
    tree.context_click("b.rs");
    assert_eq!(tree.selected(), Some("b.rs"));
    assert!(tree.is_in_selection("a.rs"));
}

#[test]
fn modified_clicks_select_and_plain_clicks_act() {
    let mut tree = seed(vec![dir("src"), file("src/a.rs"), file("z.rs")]);
    assert_eq!(tree.click_row("z.rs", EntryKind::File, true, false), None);
    assert!(tree.is_in_selection("z.rs"));
    assert_eq!(tree.click_row("src/a.rs", EntryKind::File, false, true), None);
    assert!(tree.is_in_selection("src/a.rs"));
    assert_eq!(tree.click_row("src", EntryKind::Dir, false, false), None);
    assert!(tree.is_collapsed("src"));
    assert_eq!(
        tree.click_row("z.rs", EntryKind::File, false, false),
        Some(FileTreeEvent::OpenFile { path: "z.rs".into() })
    );
}

#[test]
fn toggling_a_directory_twice_shows_the_same_rows() {
    let mut tree = seed(vec![dir("src"), file("src/a.rs"), file("z.rs")]);
    let before = paths_shown(&mut tree);
    tree.toggle_dir("src");
    assert_eq!(paths_shown(&mut tree), vec!["src", "z.rs"]);
    tree.toggle_dir("src");
    assert_eq!(paths_shown(&mut tree), before);
}

#[test]
fn closing_the_filter_brings_the_collapsed_rows_back() {
    let mut tree = seed(vec![dir("src"), file("src/a.rs"), file("z.rs")]);
    tree.toggle_dir("src");
    let before = paths_shown(&mut tree);
    tree.open_filter();
    tree.filter_changed("a.rs");
    assert_eq!(paths_shown(&mut tree), vec!["src", "src/a.rs"]);
    tree.close_filter();
    assert_eq!(paths_shown(&mut tree), before);
}

#[test]
fn folding_the_root_twice_restores_the_tree() {
    let mut tree = seed(vec![dir("src"), file("src/a.rs"), file("z.rs")]);
    tree.toggle_dir("src");
    let before = paths_shown(&mut tree);
    tree.toggle_root_collapsed();
    assert!(paths_shown(&mut tree).is_empty());
    tree.toggle_root_collapsed();
    assert_eq!(paths_shown(&mut tree), before);
}

#[test]
fn folding_the_root_twice_restores_a_filtered_tree() {
    let mut tree = seed(vec![dir("src"), file("src/a\\b.rs"), file("src/c.rs"), file("z.rs")]);
    tree.toggle_dir("src");
    tree.open_filter();
    tree.filter_changed("ab");
    let before = paths_shown(&mut tree);
    assert_eq!(before, vec!["src", "src/a\\b.rs"]);
    tree.toggle_root_collapsed();
    assert!(paths_shown(&mut tree).is_empty());
    tree.toggle_root_collapsed();
    assert_eq!(paths_shown(&mut tree), before);
    assert!(tree.is_collapsed("src"));
}

#[test]
fn revealing_a_file_expands_its_ancestors_alone() {
    let mut tree = seed(vec![
        dir("a"),
        dir("a/b"),
        file("a/b/c.rs"),
        dir("d"),
        file("d/e.rs"),
    ]);
    tree.collapse_all();
    let row = tree.reveal_path("a/b/c.rs");
    assert!(!tree.is_collapsed("a"));
    assert!(!tree.is_collapsed("a/b"));
    assert!(tree.is_collapsed("d"));
    assert_eq!(tree.selected(), Some("a/b/c.rs"));
    assert_eq!(row, Some(2));
}

#[test]
fn a_collapsed_directory_hides_its_subtree_past_a_sibling_in_between() {
    let mut tree = seed(vec![dir("src"), file("src.rs"), file("src/a.rs")]);
    tree.toggle_dir("src");
    assert_eq!(paths_shown(&mut tree), vec!["src", "src.rs"]);
}

#[test]
fn a_reply_to_a_file_operation_leaves_the_worktree() {
    let mut tree = seed(vec![file("a.rs")]);
    tree.apply_file_op_result(
        FileOp::Rename { from: "a.rs".into(), to: "b.rs".into() },
        true,
        None,
    );
    assert!(tree.model().get("a.rs").is_some());
    assert!(tree.model().get("b.rs").is_none());
    tree.apply_file_op_result(
        FileOp::Delete { path: "a.rs".into() },
        false,
        Some(FileOpError::NotFound),
    );
    assert!(tree.model().get("a.rs").is_some());
}

#[test]
fn snapshots_arrive_in_chunks() {
    let mut tree = FileTree::new();
    tree.model_mut().apply_snapshot_chunk("/r".into(), vec![file("a.rs")], false);
    assert!(tree.model().root().is_none());
    tree.model_mut().apply_snapshot_chunk("/r".into(), vec![file("b.rs")], true);
    assert_eq!(tree.model().root(), Some("/r"));
    assert_eq!(paths_shown(&mut tree), vec!["a.rs", "b.rs"]);
}

#[test]
fn renaming_keeps_the_directory() {
    assert_eq!(rename_target("src/main.rs", "lib.rs"), "src/lib.rs");
    assert_eq!(parent_dir(&rename_target("src/main.rs", "lib.rs")), "src");
    assert_eq!(rename_target("src/main.rs", leaf_name("src/main.rs")), "src/main.rs");
    assert_eq!(rename_target("top.rs", "new.rs"), "new.rs");
}

#[test]
fn joined_paths_split_back() {
    let path = join_dir("src/a", "b.rs");
    assert_eq!(path, "src/a/b.rs");
    assert_eq!(parent_dir(&path), "src/a");
    assert_eq!(leaf_name(&path), "b.rs");
    assert_eq!(path_depth(&path), 2);
    assert!(is_under("src", &path));
    assert!(!is_under("sr", &path));
}

#[test]
fn a_taken_drop_moves_the_entry_elsewhere() {
    let dragged = DraggedRow { path: "a/x.rs".into(), kind: EntryKind::File };
    assert!(FileTree::can_drop(&dragged, EntryKind::Dir, "b"));
    let moved = resolve_drop("a/x.rs", EntryKind::File, EntryKind::Dir, "b");
    assert_eq!(moved, Some(("a/x.rs".to_owned(), "b/x.rs".to_owned())));
    assert!(!FileTree::can_drop(&dragged, EntryKind::Dir, "a"));
}

#[test]
fn emphasis_spans_spell_the_name() {
    let spans = emphasis_segments("straße.rs", &[4, 5]);
    let spelled: String = spans.iter().map(|(text, _)| text.as_str()).collect();
    assert_eq!(spelled, "straße.rs");
    assert_eq!(
        spans,
        vec![("stra".into(), false), ("ße".into(), true), (".rs".into(), false)]
    );
}

#[test]
fn stable_order_keeps_the_order_of_equal_keys() {
    assert_eq!(stable_order(&vec![3, 1, 3, 0, 1]), vec![3, 1, 4, 0, 2]);
    assert!(stable_order(&vec![]).is_empty());
}

#[test]
fn starting_a_create_closes_the_rename_editor() {
    let mut tree = seed(vec![file("a.rs")]);
    tree.click_file("a.rs");
    tree.start_rename();
    assert!(tree.rename_editor().is_some());
    tree.start_create(EntryKind::File);
    assert!(tree.create_editor().is_some());
    assert!(tree.rename_editor().is_none());
}

#[test]
fn starting_a_rename_closes_the_create_editor() {
    let mut tree = seed(vec![file("a.rs")]);
    tree.click_file("a.rs");
    tree.start_create(EntryKind::File);
    tree.start_rename();
    assert!(tree.create_editor().is_none());
    let editor = tree.rename_editor().expect("open");
    assert_eq!(editor.path, "a.rs");
    assert_eq!(editor.name, "a.rs");
}

#[test]
fn a_refusal_opens_one_editor_alone() {
    let mut tree = seed(vec![file("a.rs")]);
    tree.click_file("a.rs");
    tree.start_create(EntryKind::File);
    let rename = FileOp::Rename { from: "a.rs".to_owned(), to: "b.rs".to_owned() };
    tree.apply_file_op_result(rename, false, Some(FileOpError::AlreadyExists));
    assert!(tree.create_editor().is_none());
    assert!(tree.rename_editor().is_some());

    let create = FileOp::CreateFile { path: "b.rs".to_owned() };
    tree.apply_file_op_result(create, false, Some(FileOpError::InvalidPath));
    assert!(tree.create_editor().is_some());
    assert!(tree.rename_editor().is_none());
}

#[test]
fn a_filter_of_any_length_is_taken() {
    let mut tree = seed(vec![file("a.rs")]);
    tree.open_filter();
    tree.filter_changed(&"x".repeat(5000));
    assert!(paths_shown(&mut tree).is_empty());
    tree.close_filter();
    assert_eq!(paths_shown(&mut tree), vec!["a.rs"]);
}

#[test]
fn a_change_outranks_an_untracked_side() {
    let lane = |index, worktree| GitRollupStatus::from_status(GitEntryStatus { index, worktree });
    assert_eq!(
        lane(GitStatusCode::Deleted, GitStatusCode::Untracked),
        Some(GitRollupStatus::Changed)
    );
    assert_eq!(
        lane(GitStatusCode::Untracked, GitStatusCode::Modified),
        Some(GitRollupStatus::Changed)
    );
    assert_eq!(
        lane(GitStatusCode::Untracked, GitStatusCode::Unmodified),
        Some(GitRollupStatus::Untracked)
    );
    assert_eq!(
        lane(GitStatusCode::Untracked, GitStatusCode::Unmerged),
        Some(GitRollupStatus::Conflicted)
    );
}
