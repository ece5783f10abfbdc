use std::collections::{HashMap, HashSet};

use rift::emphasis::emphasis_segments;
use rift::file_tree::editing::{describe_delete, describe_file_op_error};
use rift::file_tree::presentation::{
    EmptyState, DIAGNOSTIC_DOT_SIZE, GIT_LETTER_SLOT_WIDTH, HEADER_ACTION_GAP, HEADER_HEIGHT,
    HEADER_PADDING_LEFT, HEADER_PADDING_RIGHT, ICON_SLOT_WIDTH, INDENT_BASE, INDENT_GUIDE_WIDTH,
    INDENT_PER_LEVEL, ROOT_ROW_PADDING_X, ROW_BLOCK_PADDING_Y, ROW_HEIGHT, ROW_RADIUS,
    ROW_SLOT_GAP,
};
use rift::file_tree::{FileTree, FileTreeEvent};
use rift::navigation::{first_child_path, parent_path, selection_after_down, selection_after_up};
use rift::paths::{
    absolute_path, ancestor_dirs, drop_target_dir, drops_into_own_subtree, join_dir,
    rename_target, resolve_drop, reveal_in_terminal_dir,
};
use rift::protocol::{
    Diagnostic, DiagnosticSeverity, EntryKind, FileOp, FileOpError, GitEntryStatus, GitStatusCode,
    GitStatusEntry, Position, Range, WorktreeEntry,
};
use rift::rollup::{compute_rollup, max_severity, worse_severity, GitRollupStatus, Rollup};
use rift::rows::{leaf_matched_indices, Row};
use rift::worktree::WorktreeModel;

fn entry(path: &str, kind: EntryKind) -> WorktreeEntry {
    WorktreeEntry { path: path.to_owned(), kind, ignored: false }
}

fn file(path: &str) -> WorktreeEntry {
    entry(path, EntryKind::File)
}

fn dir(path: &str) -> WorktreeEntry {
    entry(path, EntryKind::Dir)
}

/// A tree with one complete snapshot.
fn seed(entries: Vec<WorktreeEntry>) -> FileTree {
    let mut tree = FileTree::new();
    tree.model_mut().apply_snapshot_chunk("/proj".into(), entries, true);
    tree
}

/// Moves the cursor to a path, with no multi-selection.
fn select(tree: &mut FileTree, path: &str) {
    tree.click_file(path);
}

/// Puts paths into the multi-selection.
fn pick(tree: &mut FileTree, paths: &[&str]) {
    for path in paths {
        tree.toggle_selection(path);
    }
}

/// The entries of the tree that are in the multi-selection, in path order.
fn picked(tree: &FileTree) -> Vec<String> {
    let entries = tree.model().entries();
    (0..entries.len())
        .map(|i| entries.at(i).path.clone())
        .filter(|path| tree.is_in_selection(path))
        .collect()
}

/// Types a query into the filter bar.
fn filter(tree: &mut FileTree, query: &str) {
    if !tree.filter_active() {
        tree.open_filter();
    }
    tree.filter_changed(query);
}

/// Makes a path the one to reveal once it arrives.
fn arm_reveal(tree: &mut FileTree, path: &str) {
    tree.apply_file_op_result(FileOp::CreateFile { path: path.to_owned() }, true, None);
}

/// The decorations by path.
fn rollups(model: &WorktreeModel) -> HashMap<String, Rollup> {
    let rollups = compute_rollup(model);
    let entries = model.entries();
    assert_eq!(rollups.len(), entries.len());
    (0..entries.len()).map(|i| (entries.at(i).path.clone(), rollups[i])).collect()
}

fn git_entry(path: &str, index: GitStatusCode, worktree: GitStatusCode) -> GitStatusEntry {
    GitStatusEntry { path: path.to_owned(), status: GitEntryStatus { index, worktree } }
}

fn diag(severity: DiagnosticSeverity) -> Diagnostic {
    Diagnostic {
        range: Range {
            start: Position { line: 0, character: 0 },
            end: Position { line: 0, character: 1 },
        },
        severity,
        message: "test".to_owned(),
        source: None,
        code: None,
    }
}

fn row_at(path: &str, kind: EntryKind, depth: usize) -> Row {
    Row {
        path: path.to_owned(),
        kind,
        depth,
        ignored: false,
        git_status: None,
        severity: None,
        is_pending_create: false,
        matched_indices: Vec::new(),
    }
}

fn seeded_rows() -> Vec<Row> {
    vec![
        row_at("a", EntryKind::Dir, 0),
        row_at("a/b", EntryKind::Dir, 1),
        row_at("a/b/c.rs", EntryKind::File, 2),
        row_at("a/d.rs", EntryKind::File, 1),
        row_at("e.rs", EntryKind::File, 0),
    ]
}

#[test]
fn test_visible_rows_annotate_depth_from_path() {
    let tree = seed(vec![
        dir("src"),
        file("src/main.rs"),
        file("src/lib.rs"),
        file("README.md"),
    ]);

    let rows = tree.visible_rows();
    let by_path: Vec<(&str, usize)> = rows.iter().map(|r| (r.path.as_str(), r.depth)).collect();
    assert_eq!(
        by_path,
        vec![
            ("README.md", 0),
            ("src", 0),
            ("src/lib.rs", 1),
            ("src/main.rs", 1),
        ]
    );
}

#[test]
fn test_collapsing_a_dir_hides_its_whole_subtree() {
    let mut tree = seed(vec![
        dir("src"),
        dir("src/net"),
        file("src/net/tcp.rs"),
        file("src/main.rs"),
        file("top.rs"),
    ]);
    assert_eq!(tree.visible_rows().len(), 5);
    tree.toggle_dir("src");
    let rows = tree.visible_rows();
    let visible: Vec<&str> = rows.iter().map(|r| r.path.as_str()).collect();
    assert_eq!(visible, vec!["src", "top.rs"]);
    assert!(tree.is_collapsed("src"));
    tree.toggle_dir("src");
    assert_eq!(tree.visible_rows().len(), 5);
    assert!(!tree.is_collapsed("src"));
}

#[test]
fn test_collapse_is_prefix_exact_not_substring() {
    let mut tree = seed(vec![
        dir("src"),
        file("src/a.rs"),
        dir("src2"),
        file("src2/b.rs"),
    ]);

    tree.toggle_dir("src");
    let rows = tree.visible_rows();
    let visible: Vec<&str> = rows.iter().map(|r| r.path.as_str()).collect();
    assert_eq!(visible, vec!["src", "src2", "src2/b.rs"]);
}

#[test]
fn test_nested_collapse_skips_only_the_outer_subtree_once() {
    let mut tree = seed(vec![
        dir("a"),
        dir("a/b"),
        file("a/b/c.rs"),
        file("a/d.rs"),
        file("z.rs"),
    ]);

    tree.toggle_dir("a/b");
    tree.toggle_dir("a");
    let rows = tree.visible_rows();
    let visible: Vec<&str> = rows.iter().map(|r| r.path.as_str()).collect();
    assert_eq!(visible, vec!["a", "z.rs"]);
}

#[test]
fn test_display_name_is_the_leaf_segment() {
    assert_eq!(FileTree::display_name("src/net/tcp.rs"), "tcp.rs");
    assert_eq!(FileTree::display_name("README.md"), "README.md");
    assert_eq!(FileTree::display_name("src"), "src");
}

#[test]
fn test_row_indent_follows_the_artboards_8_24_40_56_lanes() {
    assert_eq!(FileTree::row_indent(0), 8);
    assert_eq!(FileTree::row_indent(1), 24);
    assert_eq!(FileTree::row_indent(2), 40);
    assert_eq!(FileTree::row_indent(3), 56);
}

#[test]
fn test_indent_guide_positions_with_zero_depth_is_empty() {
    assert_eq!(FileTree::indent_guide_positions(0), Vec::<u64>::new());
}

#[test]
fn test_indent_guide_positions_align_1_to_1_with_the_indent_lanes() {
    assert_eq!(FileTree::indent_guide_positions(1), vec![8]);
    assert_eq!(FileTree::indent_guide_positions(2), vec![8, 24]);
    assert_eq!(
        FileTree::indent_guide_positions(3),
        vec![8, 24, 40]
    );
}

#[test]
fn test_indent_guide_count_matches_depth() {
    for depth in 0..6 {
        assert_eq!(FileTree::indent_guide_positions(depth).len(), depth);
    }
}

#[test]
fn test_row_density_constants_match_the_redesigned_artboard() {
    assert_eq!(ROW_HEIGHT, 28);
    assert_eq!(ROW_BLOCK_PADDING_Y, 4);
    assert_eq!(ROW_RADIUS, 5);
    assert_eq!(ROW_SLOT_GAP, 6);
    assert_eq!(INDENT_BASE, 8);
    assert_eq!(INDENT_PER_LEVEL, 16);
    assert_eq!(INDENT_GUIDE_WIDTH, 1);
    assert_eq!(ICON_SLOT_WIDTH, 14);
    assert_eq!(DIAGNOSTIC_DOT_SIZE, 7);
    assert_eq!(GIT_LETTER_SLOT_WIDTH, 12);
}

#[test]
fn test_header_and_root_row_constants_match_the_redesigned_artboard() {
    assert_eq!(HEADER_HEIGHT, 38);
    assert_eq!(HEADER_PADDING_LEFT, 14);
    assert_eq!(HEADER_PADDING_RIGHT, 12);
    assert_eq!(HEADER_ACTION_GAP, 12);
    assert_eq!(ROOT_ROW_PADDING_X, 12);
    assert_eq!(ROW_SLOT_GAP, 6);
}

#[test]
fn test_empty_state_with_no_snapshot_yet_is_loading() {
    let tree = FileTree::new();
    assert_eq!(tree.empty_state(), Some(EmptyState::Loading));
}

#[test]
fn test_empty_state_with_an_empty_root_snapshot_is_empty_root() {
    let tree = seed(vec![]);
    assert!(tree.model().root().is_some());
    assert!(tree.model().is_empty());
    assert_eq!(tree.empty_state(), Some(EmptyState::EmptyRoot));
}

#[test]
fn test_empty_state_with_populated_entries_is_none() {
    let tree = seed(vec![file("README.md")]);
    assert_eq!(tree.empty_state(), None);
}

#[test]
fn test_new_tree_starts_with_a_dirty_cache() {
    let tree = FileTree::new();
    assert!(tree.is_dirty());
    assert!(tree.rows().is_empty());
}

#[test]
fn test_refresh_row_cache_builds_rows_and_clears_dirty() {
    let mut tree = seed(vec![dir("src"), file("src/main.rs"), file("README.md")]);
    assert!(
        tree.is_dirty(),
        "seeding via model_mut marks the cache dirty"
    );

    tree.refresh_row_cache();

    assert!(!tree.is_dirty());
    assert_eq!(*tree.rows(), tree.visible_rows());
}

#[test]
fn test_model_mut_marks_the_cache_dirty_even_with_no_visible_change() {
    let mut tree = seed(vec![file("a.txt")]);
    tree.refresh_row_cache();
    assert!(!tree.is_dirty());
    tree.model_mut();
    assert!(tree.is_dirty());
}

#[test]
fn test_refresh_row_cache_after_incremental_update_matches_a_fresh_build_no_drift() {
    let mut tree = seed(vec![file("a.txt"), file("stale.txt")]);
    tree.refresh_row_cache();
    tree.model_mut()
        .apply_update(vec![file("fresh.txt")], vec![], vec!["stale.txt".into()]);
    assert!(
        tree.is_dirty(),
        "the update must have marked the cache dirty"
    );

    tree.refresh_row_cache();
    assert_eq!(*tree.rows(), tree.visible_rows());
    let paths: Vec<&str> = tree.rows().iter().map(|r| r.path.as_str()).collect();
    assert_eq!(paths, vec!["a.txt", "fresh.txt"]);
}

#[test]
fn test_refresh_row_cache_is_idempotent_while_clean() {
    let mut tree = seed(vec![dir("src"), file("src/main.rs")]);
    tree.refresh_row_cache();
    let built = tree.visible_rows();
    tree.refresh_row_cache();
    assert_eq!(*tree.rows(), built);
}

#[test]
fn test_toggle_dir_marks_the_cache_dirty_and_refresh_reflects_the_collapse() {
    let mut tree = seed(vec![dir("src"), file("src/main.rs"), file("top.rs")]);
    tree.refresh_row_cache();
    assert!(!tree.is_dirty());

    tree.toggle_dir("src");
    assert!(tree.is_dirty());

    tree.refresh_row_cache();
    let visible: Vec<&str> = tree.rows().iter().map(|r| r.path.as_str()).collect();
    assert_eq!(visible, vec!["src", "top.rs"]);
}

#[test]
fn test_click_dir_selects_and_toggles_the_directory() {
    let mut tree = seed(vec![dir("src"), file("src/main.rs"), file("top.rs")]);

    tree.click_dir("src");
    assert_eq!(tree.selected(), Some("src"));
    assert!(tree.is_collapsed("src"));
    tree.click_dir("src");
    assert_eq!(tree.selected(), Some("src"));
    assert!(!tree.is_collapsed("src"));
}

#[test]
fn test_click_dir_moves_the_selection_off_a_previously_selected_row() {
    let mut tree = seed(vec![dir("src"), file("src/main.rs"), file("top.rs")]);
    select(&mut tree, "top.rs");

    tree.click_dir("src");

    assert_eq!(tree.selected(), Some("src"));
}

#[test]
fn test_all_dirs_collapsed_is_false_on_a_freshly_seeded_expanded_tree() {
    let tree = seed(vec![dir("src"), file("src/main.rs"), file("top.rs")]);
    assert!(!tree.all_dirs_collapsed());
}

#[test]
fn test_all_dirs_collapsed_is_false_when_a_tree_has_no_directories() {
    let tree = seed(vec![file("a.txt"), file("b.txt")]);
    assert!(!tree.all_dirs_collapsed());
}

#[test]
fn test_collapse_all_collapses_every_directory_and_marks_all_dirs_collapsed() {
    let mut tree = seed(vec![
        dir("a"),
        dir("a/b"),
        file("a/b/c.rs"),
        dir("z"),
        file("top.rs"),
    ]);
    tree.refresh_row_cache();

    tree.collapse_all();

    assert!(tree.is_collapsed("a"));
    assert!(tree.is_collapsed("a/b"));
    assert!(tree.is_collapsed("z"));
    assert!(tree.all_dirs_collapsed());
    assert!(tree.is_dirty());
    tree.refresh_row_cache();
    let visible: Vec<&str> = tree.rows().iter().map(|r| r.path.as_str()).collect();
    assert_eq!(visible, vec!["a", "top.rs", "z"]);
}

#[test]
fn test_expand_all_clears_the_collapsed_set() {
    let mut tree = seed(vec![dir("a"), dir("a/b"), file("a/b/c.rs")]);
    tree.collapse_all();
    assert!(tree.all_dirs_collapsed());

    tree.expand_all();

    assert!(!tree.is_collapsed("a"));
    assert!(!tree.is_collapsed("a/b"));
    assert!(!tree.all_dirs_collapsed());
    assert!(tree.is_dirty());
}

#[test]
fn test_toggle_collapse_all_flips_between_fully_collapsed_and_fully_expanded() {
    let mut tree = seed(vec![dir("a"), file("a/b.rs"), dir("c")]);

    tree.toggle_collapse_all();
    assert!(tree.all_dirs_collapsed());

    tree.toggle_collapse_all();
    assert!(!tree.all_dirs_collapsed());
    assert!(!tree.is_collapsed("a"));
    assert!(!tree.is_collapsed("c"));
}

#[test]
fn test_collapse_all_preserves_an_already_collapsed_directory_not_reported_by_toggle() {
    let mut tree = seed(vec![dir("a"), file("a/x.rs"), dir("b"), file("b/y.rs")]);
    tree.toggle_dir("a");
    assert!(tree.is_collapsed("a"));

    tree.collapse_all();

    assert!(tree.is_collapsed("a"));
    assert!(tree.is_collapsed("b"));
}

#[test]
fn test_toggle_root_collapsed_hides_all_entries_then_restores_the_exact_prior_tree() {
    let mut tree = seed(vec![dir("src"), file("src/main.rs"), file("top.rs")]);
    let before = tree.visible_rows();
    assert!(!before.is_empty());

    tree.toggle_root_collapsed();
    assert!(
        tree.visible_rows().is_empty(),
        "collapsing the root hides every root-level entry"
    );

    tree.toggle_root_collapsed();
    assert_eq!(
        tree.visible_rows(),
        before,
        "expanding the root restores a build identical to the original"
    );
}

#[test]
fn test_toggle_root_collapsed_never_reads_or_mutates_the_real_collapsed_set() {
    let mut tree = seed(vec![dir("src"), file("src/main.rs")]);
    tree.toggle_dir("src");
    assert!(tree.is_collapsed("src"));

    tree.toggle_root_collapsed();
    assert!(
        tree.is_collapsed("src"),
        "the whole-tree toggle must not touch the per-folder collapsed set"
    );

    tree.toggle_root_collapsed();
    assert!(
        tree.is_collapsed("src"),
        "src is still collapsed once the whole-tree toggle clears"
    );
}

#[test]
fn test_root_collapsed_is_distinct_from_header_collapse_all() {
    let mut tree = seed(vec![dir("src"), file("src/main.rs"), file("top.rs")]);
    tree.collapse_all();
    assert!(tree.all_dirs_collapsed());
    assert!(!tree.visible_rows().is_empty());
    tree.toggle_root_collapsed();
    assert!(tree.visible_rows().is_empty());
    assert!(tree.all_dirs_collapsed());
}

#[test]
fn test_toggle_root_collapsed_marks_the_cache_dirty() {
    let mut tree = seed(vec![file("a.txt")]);
    tree.refresh_row_cache();
    assert!(!tree.is_dirty());

    tree.toggle_root_collapsed();
    assert!(tree.is_dirty());
}

#[test]
fn test_root_leaf_of_a_nested_absolute_path() {
    assert_eq!(FileTree::root_leaf("/home/user/proj"), "proj");
    assert_eq!(FileTree::root_leaf("/proj"), "proj");
}

#[test]
fn test_root_leaf_of_the_filesystem_root_is_unchanged() {
    assert_eq!(FileTree::root_leaf("/"), "/");
}

#[test]
fn test_reveal_active_requested_variant_is_distinct_from_open_file_under_eq() {
    assert_ne!(
        FileTreeEvent::RevealActiveRequested,
        FileTreeEvent::OpenFile {
            path: "a.rs".into()
        }
    );
}

#[test]
fn test_leaf_matched_indices_rebases_onto_the_leaf_segment() {
    assert_eq!(
        leaf_matched_indices("src/main.rs", &[4, 5, 6, 7]),
        vec![0, 1, 2, 3]
    );
}

#[test]
fn test_leaf_matched_indices_drops_indices_in_an_ancestor_segment() {
    assert_eq!(
        leaf_matched_indices("src/main.rs", &[0, 1, 2]),
        Vec::<usize>::new()
    );
}

#[test]
fn test_leaf_matched_indices_of_a_top_level_path_is_unchanged() {
    assert_eq!(leaf_matched_indices("main.rs", &[0, 1]), vec![0, 1]);
}

#[test]
fn test_emphasis_segments_empty_indices_is_a_single_unmatched_span() {
    assert_eq!(
        emphasis_segments("main.rs", &[]),
        vec![("main.rs".to_owned(), false)]
    );
}

#[test]
fn test_emphasis_segments_splits_matched_and_unmatched_runs() {
    assert_eq!(
        emphasis_segments("main.rs", &[0, 1, 2, 3]),
        vec![("main".to_owned(), true), (".rs".to_owned(), false)]
    );
}

#[test]
fn test_emphasis_segments_handles_non_contiguous_matches() {
    assert_eq!(
        emphasis_segments("main.rs", &[0, 5, 6]),
        vec![
            ("m".to_owned(), true),
            ("ain.".to_owned(), false),
            ("rs".to_owned(), true),
        ]
    );
}

#[test]
fn test_visible_rows_filtered_matches_files_and_includes_ancestor_dirs() {
    let mut tree = seed(vec![
        dir("src"),
        file("src/main.rs"),
        file("src/lib.rs"),
        file("README.md"),
    ]);
    filter(&mut tree, "main");

    let rows = tree.visible_rows();
    let visible: Vec<&str> = rows.iter().map(|r| r.path.as_str()).collect();
    assert_eq!(visible, vec!["src", "src/main.rs"]);
}

#[test]
fn test_visible_rows_filtered_never_matches_a_directory_by_its_own_name() {
    let mut tree = seed(vec![dir("target"), file("other.rs")]);
    filter(&mut tree, "target");

    assert!(tree.visible_rows().is_empty());
}

#[test]
fn test_visible_rows_filtered_no_match_query_yields_an_empty_row_set() {
    let mut tree = seed(vec![dir("src"), file("src/main.rs")]);
    filter(&mut tree, "zzz-nope");

    assert!(tree.visible_rows().is_empty());
}

#[test]
fn test_visible_rows_filtered_force_expands_a_collapsed_ancestor_without_mutating_collapsed() {
    let mut tree = seed(vec![dir("src"), file("src/main.rs"), file("top.rs")]);
    tree.toggle_dir("src");
    assert!(tree.is_collapsed("src"));

    filter(&mut tree, "main");
    let rows = tree.visible_rows();
    let visible: Vec<&str> = rows.iter().map(|r| r.path.as_str()).collect();
    assert_eq!(
        visible,
        vec!["src", "src/main.rs"],
        "a match inside a collapsed directory still shows, its ancestor force-expanded"
    );
    assert!(tree.is_collapsed("src"));
}

#[test]
fn test_visible_rows_filtered_carries_leaf_relative_matched_indices_on_the_file_row_only() {
    let mut tree = seed(vec![dir("src"), file("src/main.rs")]);
    filter(&mut tree, "main");

    let rows = tree.visible_rows();
    let dir_row = rows
        .iter()
        .find(|r| r.path == "src")
        .expect("ancestor dir row present");
    assert!(
        dir_row.matched_indices.is_empty(),
        "an ancestor directory row carries no emphasis"
    );

    let file_row = rows
        .iter()
        .find(|r| r.path == "src/main.rs")
        .expect("matched file row present");
    assert_eq!(
        file_row.matched_indices,
        vec![0, 1, 2, 3],
        "leaf-relative: main.rs's own `main` is matched"
    );
}

#[test]
fn test_visible_rows_clearing_the_query_restores_the_exact_prior_tree() {
    let mut tree = seed(vec![
        dir("src"),
        dir("src/net"),
        file("src/net/tcp.rs"),
        file("src/main.rs"),
        file("top.rs"),
    ]);
    tree.toggle_dir("src/net");
    let before = tree.visible_rows();

    filter(&mut tree, "tcp");
    let filtered = tree.visible_rows();
    assert_ne!(filtered, before, "the filtered pass narrows the tree");

    filter(&mut tree, "");
    assert_eq!(
        tree.visible_rows(),
        before,
        "clearing the query restores the exact prior tree"
    );
    assert!(
        tree.is_collapsed("src/net"),
        "the real collapsed set survived the filtered pass untouched"
    );
}

#[test]
fn test_git_rollup_status_from_status_precedence() {
    
    assert_eq!(
        GitRollupStatus::from_status(GitEntryStatus {
            index: GitStatusCode::Unmodified,
            worktree: GitStatusCode::Unmodified
        }),
        None
    );
    assert_eq!(
        GitRollupStatus::from_status(GitEntryStatus {
            index: GitStatusCode::Unmodified,
            worktree: GitStatusCode::Untracked
        }),
        Some(GitRollupStatus::Untracked)
    );
    assert_eq!(
        GitRollupStatus::from_status(GitEntryStatus {
            index: GitStatusCode::Modified,
            worktree: GitStatusCode::Unmodified
        }),
        Some(GitRollupStatus::Changed)
    );
    assert_eq!(
        GitRollupStatus::from_status(GitEntryStatus {
            index: GitStatusCode::Unmerged,
            worktree: GitStatusCode::Unmodified
        }),
        Some(GitRollupStatus::Conflicted)
    );
    assert_eq!(
        GitRollupStatus::from_status(GitEntryStatus {
            index: GitStatusCode::Modified,
            worktree: GitStatusCode::Unmerged
        }),
        Some(GitRollupStatus::Conflicted)
    );
}

#[test]
fn test_git_rollup_status_from_status_deleted_on_either_side_maps_to_changed() {
    
    assert_eq!(
        GitRollupStatus::from_status(GitEntryStatus {
            index: GitStatusCode::Unmodified,
            worktree: GitStatusCode::Deleted
        }),
        Some(GitRollupStatus::Changed)
    );
    assert_eq!(
        GitRollupStatus::from_status(GitEntryStatus {
            index: GitStatusCode::Deleted,
            worktree: GitStatusCode::Unmodified
        }),
        Some(GitRollupStatus::Changed)
    );
    assert_eq!(
        GitRollupStatus::from_status(GitEntryStatus {
            index: GitStatusCode::Deleted,
            worktree: GitStatusCode::Unmerged
        }),
        Some(GitRollupStatus::Conflicted)
    );
    assert_eq!(GitRollupStatus::Changed.badge(), "M");
}

#[test]
fn test_worse_severity_orders_error_above_warning_above_information_above_hint() {
    

    assert_eq!(worse_severity(DiagnosticSeverity::Error, DiagnosticSeverity::Hint), DiagnosticSeverity::Error);
    assert_eq!(worse_severity(DiagnosticSeverity::Hint, DiagnosticSeverity::Error), DiagnosticSeverity::Error);
    assert_eq!(worse_severity(DiagnosticSeverity::Warning, DiagnosticSeverity::Information), DiagnosticSeverity::Warning);
    assert_eq!(worse_severity(DiagnosticSeverity::Information, DiagnosticSeverity::Hint), DiagnosticSeverity::Information);
}

#[test]
fn test_max_severity_none_is_clean_and_loses_to_any_some() {
    assert_eq!(max_severity(None, None), None);
    assert_eq!(
        max_severity(Some(DiagnosticSeverity::Hint), None),
        Some(DiagnosticSeverity::Hint)
    );
    assert_eq!(
        max_severity(None, Some(DiagnosticSeverity::Error)),
        Some(DiagnosticSeverity::Error)
    );
}

#[test]
fn test_compute_rollup_propagates_the_worst_status_and_severity_to_ancestors() {
    let mut model = WorktreeModel::default();
    model.apply_snapshot_chunk(
        "/proj".into(),
        vec![
            dir("a"),
            dir("a/b"),
            file("a/b/c.rs"),
            file("a/b/other.rs"),
            file("a/d.rs"),
            file("e.rs"),
            file("f.rs"),
        ],
        true,
    );
    model.apply_git_update(
        vec![
            git_entry(
                "a/b/c.rs",
                GitStatusCode::Unmodified,
                GitStatusCode::Untracked,
            ),
            git_entry(
                "a/b/other.rs",
                GitStatusCode::Unmodified,
                GitStatusCode::Modified,
            ),
            git_entry("f.rs", GitStatusCode::Unmerged, GitStatusCode::Unmerged),
        ],
        vec![],
    );
    model.apply_diagnostics(
        "a/b/other.rs".into(),
        "rust-analyzer".into(),
        vec![diag(DiagnosticSeverity::Error)],
    );
    model.apply_diagnostics(
        "a/d.rs".into(),
        "rust-analyzer".into(),
        vec![diag(DiagnosticSeverity::Warning)],
    );

    let rollup = rollups(&model);
    let at = |path: &str| rollup.get(path).copied().unwrap_or_default();
    assert_eq!(
        at("a"),
        Rollup {
            git_status: Some(GitRollupStatus::Changed),
            severity: Some(DiagnosticSeverity::Error),
        }
    );
    assert_eq!(
        at("a/b"),
        Rollup {
            git_status: Some(GitRollupStatus::Changed),
            severity: Some(DiagnosticSeverity::Error),
        }
    );
    assert_eq!(
        at("a/b/c.rs"),
        Rollup {
            git_status: Some(GitRollupStatus::Untracked),
            severity: None,
        }
    );
    assert_eq!(
        at("a/b/other.rs"),
        Rollup {
            git_status: Some(GitRollupStatus::Changed),
            severity: Some(DiagnosticSeverity::Error),
        }
    );
    assert_eq!(
        at("a/d.rs"),
        Rollup {
            git_status: None,
            severity: Some(DiagnosticSeverity::Warning),
        }
    );
    assert_eq!(at("e.rs"), Rollup::default());
    assert_eq!(
        at("f.rs"),
        Rollup {
            git_status: Some(GitRollupStatus::Conflicted),
            severity: None,
        }
    );
}

#[test]
fn test_compute_rollup_not_confused_by_a_lexically_interleaved_sibling_file() {
    let mut model = WorktreeModel::default();
    model.apply_snapshot_chunk(
        "/proj".into(),
        vec![dir("src"), file("src.rs"), file("src/main.rs")],
        true,
    );
    model.apply_git_update(
        vec![git_entry(
            "src/main.rs",
            GitStatusCode::Unmodified,
            GitStatusCode::Modified,
        )],
        vec![],
    );
    model.apply_diagnostics(
        "src/main.rs".into(),
        "rust-analyzer".into(),
        vec![diag(DiagnosticSeverity::Error)],
    );

    let rollup = rollups(&model);

    assert_eq!(
        rollup.get("src").copied().unwrap_or_default(),
        Rollup {
            git_status: Some(GitRollupStatus::Changed),
            severity: Some(DiagnosticSeverity::Error),
        },
        "src/main.rs's status and severity must roll up to its parent `src`, \
         even with the lexically-interleaved sibling `src.rs` in between"
    );
    assert_eq!(
        rollup.get("src.rs").copied().unwrap_or_default(),
        Rollup::default()
    );
}

#[test]
fn test_compute_rollup_clears_when_the_underlying_status_and_diagnostics_clear() {
    let mut model = WorktreeModel::default();
    model.apply_snapshot_chunk("/proj".into(), vec![dir("src"), file("src/main.rs")], true);
    model.apply_git_update(
        vec![git_entry(
            "src/main.rs",
            GitStatusCode::Unmodified,
            GitStatusCode::Modified,
        )],
        vec![],
    );
    model.apply_diagnostics(
        "src/main.rs".into(),
        "rust-analyzer".into(),
        vec![diag(DiagnosticSeverity::Error)],
    );

    let rollup = rollups(&model);
    assert_eq!(
        rollup.get("src").copied().unwrap_or_default(),
        Rollup {
            git_status: Some(GitRollupStatus::Changed),
            severity: Some(DiagnosticSeverity::Error),
        }
    );
    model.apply_git_update(vec![], vec!["src/main.rs".into()]);
    model.apply_diagnostics("src/main.rs".into(), "rust-analyzer".into(), vec![]);

    let rollup = rollups(&model);
    assert_eq!(
        rollup.get("src").copied().unwrap_or_default(),
        Rollup::default()
    );
}

#[test]
fn test_compute_rollup_deleted_path_absent_from_tree_marks_surviving_ancestors() {
    let mut model = WorktreeModel::default();
    model.apply_snapshot_chunk(
        "/proj".into(),
        vec![dir("a"), dir("a/b"), file("a/b/keep.rs")],
        true,
    );
    model.apply_git_update(
        vec![git_entry(
            "a/b/gone.rs",
            GitStatusCode::Unmodified,
            GitStatusCode::Deleted,
        )],
        vec![],
    );

    let rollup = rollups(&model);
    let at = |path: &str| rollup.get(path).copied().unwrap_or_default();

    let changed = Rollup {
        git_status: Some(GitRollupStatus::Changed),
        severity: None,
    };
    assert_eq!(at("a"), changed);
    assert_eq!(at("a/b"), changed);
    assert_eq!(at("a/b/keep.rs"), Rollup::default());
    assert!(!rollup.contains_key("a/b/gone.rs"));
}

#[test]
fn test_compute_rollup_deleted_subtree_skips_ancestors_that_also_left_the_tree() {
    let mut model = WorktreeModel::default();
    model.apply_snapshot_chunk("/proj".into(), vec![dir("a"), file("a/keep.rs")], true);
    model.apply_git_update(
        vec![git_entry(
            "a/b/gone.rs",
            GitStatusCode::Unmodified,
            GitStatusCode::Deleted,
        )],
        vec![],
    );

    let rollup = rollups(&model);
    assert_eq!(
        rollup.get("a").copied().unwrap_or_default(),
        Rollup {
            git_status: Some(GitRollupStatus::Changed),
            severity: None,
        }
    );
    assert!(!rollup.contains_key("a/b"));
}

#[test]
fn test_compute_rollup_deleted_and_modified_share_the_changed_lane() {
    let mut model = WorktreeModel::default();
    model.apply_snapshot_chunk("/proj".into(), vec![dir("src"), file("src/kept.rs")], true);
    model.apply_git_update(
        vec![
            git_entry(
                "src/kept.rs",
                GitStatusCode::Unmodified,
                GitStatusCode::Modified,
            ),
            git_entry(
                "src/gone.rs",
                GitStatusCode::Unmodified,
                GitStatusCode::Deleted,
            ),
        ],
        vec![],
    );

    let rollup = rollups(&model);
    assert_eq!(
        rollup.get("src").copied().unwrap_or_default().git_status,
        Some(GitRollupStatus::Changed)
    );
}

#[test]
fn test_compute_rollup_deleted_top_level_path_without_ancestors_adds_nothing() {
    let mut model = WorktreeModel::default();
    model.apply_snapshot_chunk("/proj".into(), vec![file("keep.rs")], true);
    model.apply_git_update(
        vec![git_entry(
            "gone.rs",
            GitStatusCode::Unmodified,
            GitStatusCode::Deleted,
        )],
        vec![],
    );

    let rollup = rollups(&model);
    assert_eq!(
        rollup.get("keep.rs").copied().unwrap_or_default(),
        Rollup::default()
    );
    assert!(!rollup.contains_key("gone.rs"));
}

#[test]
fn test_compute_rollup_deleted_rollup_clears_when_the_status_clears() {
    let mut model = WorktreeModel::default();
    model.apply_snapshot_chunk("/proj".into(), vec![dir("src"), file("src/keep.rs")], true);
    model.apply_git_update(
        vec![git_entry(
            "src/gone.rs",
            GitStatusCode::Unmodified,
            GitStatusCode::Deleted,
        )],
        vec![],
    );
    assert_eq!(
        rollups(&model)
            .get("src")
            .copied()
            .unwrap_or_default()
            .git_status,
        Some(GitRollupStatus::Changed)
    );
    model.apply_git_update(vec![], vec!["src/gone.rs".into()]);
    assert_eq!(
        rollups(&model)
            .get("src")
            .copied()
            .unwrap_or_default(),
        Rollup::default()
    );
}

#[test]
fn test_dir_row_carries_the_changed_rollup_after_a_tracked_file_deletion() {
    let mut tree = seed(vec![dir("src"), file("src/gone.rs"), file("top.rs")]);
    tree.model_mut()
        .apply_update(vec![], vec![], vec!["src/gone.rs".into()]);
    tree.model_mut().apply_git_update(
        vec![git_entry(
            "src/gone.rs",
            GitStatusCode::Unmodified,
            GitStatusCode::Deleted,
        )],
        vec![],
    );

    let rows = tree.visible_rows();
    let visible: Vec<&str> = rows.iter().map(|r| r.path.as_str()).collect();
    assert_eq!(visible, vec!["src", "top.rs"]);

    let src_row = rows.iter().find(|r| r.path == "src").expect("src row");
    assert_eq!(src_row.git_status, Some(GitRollupStatus::Changed));
    assert_eq!(src_row.severity, None);
}

#[test]
fn test_collapsed_dir_row_carries_the_rolled_up_git_status_and_severity() {
    let mut tree = seed(vec![dir("src"), file("src/main.rs"), file("top.rs")]);
    tree.model_mut().apply_git_update(
        vec![git_entry(
            "src/main.rs",
            GitStatusCode::Unmodified,
            GitStatusCode::Modified,
        )],
        vec![],
    );
    tree.model_mut().apply_diagnostics(
        "src/main.rs".into(),
        "rust-analyzer".into(),
        vec![diag(DiagnosticSeverity::Error)],
    );

    tree.toggle_dir("src");
    let rows = tree.visible_rows();
    let visible: Vec<&str> = rows.iter().map(|r| r.path.as_str()).collect();
    assert_eq!(visible, vec!["src", "top.rs"]);

    let src_row = rows.iter().find(|r| r.path == "src").expect("src row");
    assert_eq!(src_row.git_status, Some(GitRollupStatus::Changed));
    assert_eq!(src_row.severity, Some(DiagnosticSeverity::Error));

    let top_row = rows
        .iter()
        .find(|r| r.path == "top.rs")
        .expect("top.rs row");
    assert_eq!(top_row.git_status, None);
    assert_eq!(top_row.severity, None);
}

#[test]
fn test_row_shows_decoration_only_on_a_collapsed_dir_not_an_expanded_one() {
    let mut tree = seed(vec![dir("src"), file("src/main.rs"), file("top.rs")]);
    tree.model_mut().apply_git_update(
        vec![git_entry(
            "src/main.rs",
            GitStatusCode::Unmodified,
            GitStatusCode::Modified,
        )],
        vec![],
    );
    tree.model_mut().apply_diagnostics(
        "src/main.rs".into(),
        "rust-analyzer".into(),
        vec![diag(DiagnosticSeverity::Error)],
    );
    let rows = tree.visible_rows();
    let src_row = rows.iter().find(|r| r.path == "src").expect("src row");
    assert_eq!(src_row.git_status, Some(GitRollupStatus::Changed));
    assert!(!tree.row_shows_decoration(src_row));
    let file_row = rows
        .iter()
        .find(|r| r.path == "src/main.rs")
        .expect("file row");
    assert!(tree.row_shows_decoration(file_row));
    tree.toggle_dir("src");
    let rows = tree.visible_rows();
    let src_row = rows.iter().find(|r| r.path == "src").expect("src row");
    assert!(tree.row_shows_decoration(src_row));
}

#[test]
fn test_visible_rows_carries_the_ignored_flag_from_the_entry() {
    let mut ignored_entry = file("ignored.rs");
    ignored_entry.ignored = true;
    let tree = seed(vec![file("kept.rs"), ignored_entry]);

    let rows = tree.visible_rows();
    let kept = rows.iter().find(|r| r.path == "kept.rs").expect("kept.rs");
    let ignored = rows
        .iter()
        .find(|r| r.path == "ignored.rs")
        .expect("ignored.rs");
    assert!(!kept.ignored);
    assert!(ignored.ignored);
}

#[test]
fn test_ancestor_dirs_of_a_nested_path() {
    let ancestors = ancestor_dirs("src/net/tcp.rs");
    assert_eq!(ancestors, vec!["src", "src/net"]);
}

#[test]
fn test_ancestor_dirs_of_a_top_level_path_is_empty() {
    let ancestors = ancestor_dirs("top.rs");
    assert!(ancestors.is_empty());
}

#[test]
fn test_absolute_path_joins_root_and_nested_relative_path() {
    assert_eq!(absolute_path("/proj", "src/main.rs"), "/proj/src/main.rs");
}

#[test]
fn test_absolute_path_of_a_top_level_file_joins_with_a_single_slash() {
    assert_eq!(absolute_path("/proj", "top.rs"), "/proj/top.rs");
}

#[test]
fn test_absolute_path_with_filesystem_root_does_not_double_the_slash() {
    assert_eq!(absolute_path("/", "top.rs"), "/top.rs");
    assert_eq!(absolute_path("/", "src/main.rs"), "/src/main.rs");
}

#[test]
fn test_absolute_path_with_a_trailing_slash_root_does_not_double_the_slash() {
    assert_eq!(absolute_path("/proj/", "src/main.rs"), "/proj/src/main.rs");
}

#[test]
fn test_reveal_in_terminal_dir_of_a_directory_is_itself() {
    assert_eq!(
        reveal_in_terminal_dir("/proj", EntryKind::Dir, "src"),
        "/proj/src"
    );
}

#[test]
fn test_reveal_in_terminal_dir_of_a_nested_file_is_its_parent() {
    assert_eq!(
        reveal_in_terminal_dir("/proj", EntryKind::File, "src/main.rs"),
        "/proj/src"
    );
}

#[test]
fn test_reveal_in_terminal_dir_of_a_top_level_file_is_the_root() {
    assert_eq!(
        reveal_in_terminal_dir("/proj", EntryKind::File, "top.rs"),
        "/proj"
    );
}

#[test]
fn test_reveal_in_terminal_dir_with_filesystem_root_does_not_double_the_slash() {
    assert_eq!(reveal_in_terminal_dir("/", EntryKind::File, "top.rs"), "/");
    assert_eq!(reveal_in_terminal_dir("/", EntryKind::Dir, "src"), "/src");
}

#[test]
fn test_reveal_expands_ancestors_selects_and_marks_the_cache_dirty() {
    let mut tree = seed(vec![dir("a"), dir("a/b"), file("a/b/c.rs"), file("top.rs")]);
    tree.toggle_dir("a");
    tree.toggle_dir("a/b");
    tree.refresh_row_cache();
    assert!(tree.is_collapsed("a"));
    assert!(tree.is_collapsed("a/b"));
    assert!(!tree.is_dirty());

    tree.reveal_path("a/b/c.rs");

    assert!(!tree.is_collapsed("a"));
    assert!(!tree.is_collapsed("a/b"));
    assert_eq!(tree.selected(), Some("a/b/c.rs"));
    assert!(!tree.is_dirty(), "reveal refreshes the cache immediately");
    let visible: Vec<&str> = tree.rows().iter().map(|r| r.path.as_str()).collect();
    assert_eq!(visible, vec!["a", "a/b", "a/b/c.rs", "top.rs"]);
}

#[test]
fn test_reveal_of_a_path_absent_from_the_model_is_a_no_op() {
    let mut tree = seed(vec![dir("a"), file("a/b.rs")]);
    tree.toggle_dir("a");
    tree.refresh_row_cache();

    tree.reveal_path("does/not/exist.rs");

    assert!(tree.is_collapsed("a"), "unrelated collapse state untouched");
    assert_eq!(tree.selected(), None, "no selection for a missing path");
    assert!(!tree.is_dirty(), "no spurious invalidation for a no-op");
}

#[test]
fn test_reveal_is_idempotent_when_already_expanded_and_selected() {
    let mut tree = seed(vec![dir("a"), file("a/b.rs")]);
    tree.reveal_path("a/b.rs");
    tree.refresh_row_cache();
    assert!(!tree.is_dirty());

    tree.reveal_path("a/b.rs");

    assert_eq!(tree.selected(), Some("a/b.rs"));
    assert!(
        !tree.is_dirty(),
        "revealing an already-expanded, already-selected path changes nothing"
    );
}

#[test]
fn test_selection_after_down_moves_to_the_next_row() {
    let rows = seeded_rows();
    assert_eq!(
        selection_after_down(&rows, Some("a/b")).as_deref(),
        Some("a/b/c.rs")
    );
}

#[test]
fn test_selection_after_down_clamps_at_the_last_row() {
    let rows = seeded_rows();
    assert_eq!(
        selection_after_down(&rows, Some("e.rs")).as_deref(),
        Some("e.rs")
    );
}

#[test]
fn test_selection_after_down_selects_the_first_row_when_nothing_was_selected() {
    let rows = seeded_rows();
    assert_eq!(selection_after_down(&rows, None).as_deref(), Some("a"));
}

#[test]
fn test_selection_after_down_falls_back_to_the_first_row_when_the_selection_is_no_longer_visible() {
    let rows = seeded_rows();
    assert_eq!(
        selection_after_down(&rows, Some("gone")).as_deref(),
        Some("a")
    );
}

#[test]
fn test_selection_after_up_moves_to_the_previous_row() {
    let rows = seeded_rows();
    assert_eq!(
        selection_after_up(&rows, Some("a/d.rs")).as_deref(),
        Some("a/b/c.rs")
    );
}

#[test]
fn test_selection_after_up_clamps_at_the_first_row() {
    let rows = seeded_rows();
    assert_eq!(selection_after_up(&rows, Some("a")).as_deref(), Some("a"));
}

#[test]
fn test_selection_after_up_selects_the_first_row_when_nothing_was_selected() {
    let rows = seeded_rows();
    assert_eq!(selection_after_up(&rows, None).as_deref(), Some("a"));
}

#[test]
fn test_selection_after_down_and_up_on_an_empty_row_set_select_nothing() {
    let rows: Vec<Row> = Vec::new();
    assert_eq!(selection_after_down(&rows, None), None);
    assert_eq!(selection_after_up(&rows, Some("a")), None);
}

#[test]
fn test_parent_path_is_none_at_a_top_level_row() {
    let rows = seeded_rows();
    assert_eq!(parent_path(&rows, 0), None); // "a"
    assert_eq!(parent_path(&rows, 4), None); // "e.rs"
}

#[test]
fn test_parent_path_finds_the_nearest_ancestor_not_just_the_previous_row() {
    let rows = seeded_rows();
    assert_eq!(parent_path(&rows, 2), Some("a/b"));
    assert_eq!(parent_path(&rows, 3), Some("a"));
}

#[test]
fn test_first_child_path_finds_the_row_immediately_after_an_expanded_dir() {
    let rows = seeded_rows();
    assert_eq!(first_child_path(&rows, 0), Some("a/b")); // "a"'s first child
    assert_eq!(first_child_path(&rows, 1), Some("a/b/c.rs")); // "a/b"'s first child
}

#[test]
fn test_first_child_path_is_none_for_a_file() {
    let rows = seeded_rows();
    assert_eq!(first_child_path(&rows, 2), None); // "a/b/c.rs" is a file
    assert_eq!(first_child_path(&rows, 4), None); // "e.rs" is a file
}

#[test]
fn test_first_child_path_is_none_for_an_empty_or_already_collapsed_dir() {
    let rows = vec![
        row_at("empty", EntryKind::Dir, 0),
        row_at("sibling.rs", EntryKind::File, 0),
    ];
    assert_eq!(first_child_path(&rows, 0), None);
}

#[test]
fn test_first_child_path_is_none_for_the_last_row() {
    let rows = seeded_rows();
    assert_eq!(first_child_path(&rows, rows.len() - 1), None);
}

#[test]
fn test_select_down_and_up_move_the_tree_selection_through_visible_rows() {
    let mut tree = seed(vec![dir("a"), file("a/b.rs"), file("top.rs")]);
    tree.select_down();
    assert_eq!(tree.selected(), Some("a"));
    tree.select_down();
    assert_eq!(tree.selected(), Some("a/b.rs"));
    tree.select_down();
    assert_eq!(tree.selected(), Some("top.rs"));
    tree.select_down();
    assert_eq!(tree.selected(), Some("top.rs"));

    tree.select_up();
    assert_eq!(tree.selected(), Some("a/b.rs"));
}

#[test]
fn test_select_first_and_select_last_jump_to_the_row_set_edges() {
    let mut tree = seed(vec![dir("a"), file("a/b.rs"), file("top.rs")]);
    select(&mut tree, "a/b.rs");

    tree.select_last();
    assert_eq!(tree.selected(), Some("top.rs"));

    tree.select_first();
    assert_eq!(tree.selected(), Some("a"));
}

#[test]
fn test_scroll_selected_into_view_refreshes_the_cache_and_tolerates_a_hidden_selection() {
    let mut tree = seed(vec![dir("a"), file("a/b.rs"), file("top.rs")]);
    select(&mut tree, "a/b.rs");
    tree.toggle_dir("a");

    tree.scroll_selected_into_view();

    assert!(!tree.is_dirty(), "the helper refreshes the cache first");
    assert_eq!(tree.selected(), Some("a/b.rs"));
}

#[test]
fn test_collapse_or_select_parent_collapses_an_expanded_selected_dir() {
    let mut tree = seed(vec![dir("src"), file("src/main.rs")]);
    select(&mut tree, "src");

    tree.collapse_or_select_parent();

    assert!(tree.is_collapsed("src"));
    assert_eq!(tree.selected(), Some("src"));
}

#[test]
fn test_collapse_or_select_parent_on_a_file_selects_its_parent() {
    let mut tree = seed(vec![dir("src"), file("src/main.rs")]);
    select(&mut tree, "src/main.rs");

    tree.collapse_or_select_parent();

    assert_eq!(tree.selected(), Some("src"));
    assert!(
        !tree.is_collapsed("src"),
        "selecting the parent must not also collapse it"
    );
}

#[test]
fn test_collapse_or_select_parent_on_an_already_collapsed_dir_selects_its_parent() {
    let mut tree = seed(vec![dir("a"), dir("a/b"), file("a/b/c.rs")]);
    tree.toggle_dir("a/b");
    select(&mut tree, "a/b");

    tree.collapse_or_select_parent();

    assert_eq!(tree.selected(), Some("a"));
}

#[test]
fn test_collapse_or_select_parent_is_a_noop_at_a_top_level_row() {
    let mut tree = seed(vec![file("top.rs")]);
    select(&mut tree, "top.rs");

    tree.collapse_or_select_parent();
    assert_eq!(tree.selected(), Some("top.rs"));
}

#[test]
fn test_collapse_or_select_parent_selects_the_first_row_when_nothing_was_selected() {
    let mut tree = seed(vec![dir("a"), file("top.rs")]);

    tree.collapse_or_select_parent();

    assert_eq!(tree.selected(), Some("a"));
}

#[test]
fn test_expand_or_select_child_expands_a_collapsed_selected_dir() {
    let mut tree = seed(vec![dir("src"), file("src/main.rs")]);
    tree.toggle_dir("src");
    select(&mut tree, "src");

    tree.expand_or_select_child();

    assert!(!tree.is_collapsed("src"));
    assert_eq!(tree.selected(), Some("src"));
}

#[test]
fn test_expand_or_select_child_on_an_expanded_dir_selects_its_first_child() {
    let mut tree = seed(vec![dir("a"), dir("a/b"), file("a/z.rs")]);
    select(&mut tree, "a");

    tree.expand_or_select_child();

    assert_eq!(tree.selected(), Some("a/b"));
}

#[test]
fn test_expand_or_select_child_is_a_noop_on_a_file() {
    let mut tree = seed(vec![file("top.rs")]);
    select(&mut tree, "top.rs");

    tree.expand_or_select_child();

    assert_eq!(tree.selected(), Some("top.rs"));
}

#[test]
fn test_expand_or_select_child_is_a_noop_on_an_empty_expanded_dir() {
    let mut tree = seed(vec![dir("empty"), file("top.rs")]);
    select(&mut tree, "empty");

    tree.expand_or_select_child();

    assert_eq!(tree.selected(), Some("empty"));
}

#[test]
fn test_expand_or_select_child_selects_the_first_row_when_nothing_was_selected() {
    let mut tree = seed(vec![dir("a"), file("top.rs")]);

    tree.expand_or_select_child();

    assert_eq!(tree.selected(), Some("a"));
}

#[test]
fn test_click_dir_clears_an_existing_multi_selection() {
    let mut tree = seed(vec![dir("src"), file("src/main.rs"), file("top.rs")]);
    pick(&mut tree, &["top.rs"]);

    tree.click_dir("src");

    assert!(picked(&tree).is_empty());
}

#[test]
fn test_toggle_selection_adds_then_removes_a_path() {
    let mut tree = seed(vec![file("a.rs"), file("b.rs")]);

    tree.toggle_selection("a.rs");
    assert!(tree.is_in_selection("a.rs"));
    assert_eq!(tree.selected(), Some("a.rs"));

    tree.toggle_selection("a.rs");
    assert!(!tree.is_in_selection("a.rs"));
}

#[test]
fn test_toggle_selection_is_additive_and_moves_the_cursor() {
    let mut tree = seed(vec![file("a.rs"), file("b.rs"), file("c.rs")]);

    tree.toggle_selection("a.rs");
    tree.toggle_selection("c.rs");

    assert_eq!(picked(&tree), vec!["a.rs", "c.rs"]);
    assert_eq!(tree.selected(), Some("c.rs"));
}

#[test]
fn test_range_select_selects_every_row_between_cursor_and_target() {
    let mut tree = seed(vec![file("a.rs"), file("b.rs"), file("c.rs"), file("d.rs")]);
    select(&mut tree, "a.rs");

    tree.range_select("c.rs");

    assert_eq!(picked(&tree), vec!["a.rs", "b.rs", "c.rs"]);
    assert_eq!(tree.selected(), Some("c.rs"));
}

#[test]
fn test_range_select_with_target_above_the_cursor_still_orders_low_to_high() {
    let mut tree = seed(vec![file("a.rs"), file("b.rs"), file("c.rs")]);
    select(&mut tree, "c.rs");

    tree.range_select("a.rs");

    assert_eq!(picked(&tree), vec!["a.rs", "b.rs", "c.rs"]);
}

#[test]
fn test_range_select_with_no_cursor_selects_only_the_target() {
    let mut tree = seed(vec![file("a.rs"), file("b.rs")]);

    tree.range_select("b.rs");

    assert_eq!(picked(&tree), vec!["b.rs"]);
    assert_eq!(tree.selected(), Some("b.rs"));
}

#[test]
fn test_range_select_re_ranges_from_wherever_the_cursor_last_landed() {
    let mut tree = seed(vec![file("a.rs"), file("b.rs"), file("c.rs"), file("d.rs")]);
    select(&mut tree, "a.rs");
    tree.range_select("b.rs");
    assert_eq!(picked(&tree), vec!["a.rs", "b.rs"]);

    tree.range_select("d.rs");

    assert_eq!(picked(&tree), vec!["b.rs", "c.rs", "d.rs"]);
}

#[test]
fn test_extend_selection_down_grows_a_contiguous_range_from_the_cursor() {
    let mut tree = seed(vec![file("a.rs"), file("b.rs"), file("c.rs"), file("d.rs")]);
    select(&mut tree, "a.rs");

    tree.extend_selection_down();
    assert_eq!(tree.selected(), Some("b.rs"));
    assert_eq!(picked(&tree), vec!["a.rs", "b.rs"]);

    tree.extend_selection_down();
    assert_eq!(tree.selected(), Some("c.rs"));
    assert_eq!(picked(&tree), vec!["a.rs", "b.rs", "c.rs"]);
}

#[test]
fn test_extend_selection_up_grows_a_contiguous_range_from_the_cursor() {
    let mut tree = seed(vec![file("a.rs"), file("b.rs"), file("c.rs")]);
    select(&mut tree, "c.rs");

    tree.extend_selection_up();

    assert_eq!(tree.selected(), Some("b.rs"));
    assert_eq!(picked(&tree), vec!["b.rs", "c.rs"]);
}

#[test]
fn test_extend_selection_down_clamps_at_the_last_row() {
    let mut tree = seed(vec![file("a.rs"), file("b.rs")]);
    select(&mut tree, "b.rs");

    tree.extend_selection_down();

    assert_eq!(tree.selected(), Some("b.rs"));
    assert_eq!(picked(&tree), vec!["b.rs"]);
}

#[test]
fn test_extend_selection_down_selects_the_first_row_when_nothing_was_selected() {
    let mut tree = seed(vec![file("a.rs"), file("b.rs")]);

    tree.extend_selection_down();

    assert_eq!(tree.selected(), Some("a.rs"));
    assert!(picked(&tree).is_empty());
}

#[test]
fn test_open_many_targets_excludes_directories() {
    let mut tree = seed(vec![dir("src"), file("src/main.rs"), file("top.rs")]);
    pick(&mut tree, &["src", "top.rs"]);
    tree.refresh_row_cache();

    assert_eq!(tree.open_many_targets(), vec!["top.rs".to_owned()]);
}

#[test]
fn test_open_many_targets_are_ordered_by_visible_row_not_hashset_order() {
    let mut tree = seed(vec![file("a.rs"), file("m.rs"), file("z.rs")]);
    pick(&mut tree, &["z.rs", "a.rs", "m.rs"]);
    tree.refresh_row_cache();

    assert_eq!(
        tree.open_many_targets(),
        vec!["a.rs".to_owned(), "m.rs".to_owned(), "z.rs".to_owned()]
    );
}

#[test]
fn test_open_many_targets_prunes_paths_the_model_no_longer_has() {
    let mut tree = seed(vec![file("a.rs"), file("b.rs")]);
    pick(&mut tree, &["a.rs", "b.rs"]);
    tree.refresh_row_cache();
    assert_eq!(
        tree.open_many_targets(),
        vec!["a.rs".to_owned(), "b.rs".to_owned()]
    );

    tree.model_mut()
        .apply_snapshot_chunk("/proj".into(), vec![file("a.rs")], true);
    tree.refresh_row_cache();

    assert_eq!(tree.open_many_targets(), vec!["a.rs".to_owned()]);
    assert!(
        tree.is_in_selection("b.rs"),
        "selection itself is not actively pruned"
    );
}

#[test]
fn test_rename_target_joins_new_name_under_the_original_parent() {
    assert_eq!(rename_target("src/main.rs", "lib.rs"), "src/lib.rs");
}

#[test]
fn test_rename_target_top_level_path_has_no_parent_prefix() {
    assert_eq!(rename_target("README.md", "readme.md"), "readme.md");
}

#[test]
fn test_join_dir_under_a_nested_parent() {
    assert_eq!(join_dir("src", "lib.rs"), "src/lib.rs");
}

#[test]
fn test_join_dir_at_the_root_has_no_parent_prefix() {
    assert_eq!(join_dir("", "README.md"), "README.md");
}

#[test]
fn test_describe_delete_of_a_directory_warns_about_its_contents() {
    assert_eq!(
        describe_delete("src", EntryKind::Dir),
        "Delete \"src\" and its contents? This cannot be undone."
    );
}

#[test]
fn test_describe_delete_of_a_file_omits_the_contents_warning() {
    let message = describe_delete("main.rs", EntryKind::File);
    assert_eq!(message, "Delete \"main.rs\"? This cannot be undone.");
    assert!(!message.contains("contents"));
}

#[test]
fn test_describe_file_op_error_is_distinct_per_variant() {
    let messages = [
        describe_file_op_error(FileOpError::AlreadyExists),
        describe_file_op_error(FileOpError::InvalidPath),
        describe_file_op_error(FileOpError::NotFound),
        describe_file_op_error(FileOpError::PermissionDenied),
        describe_file_op_error(FileOpError::Io),
    ];
    let unique: HashSet<&str> = messages.iter().copied().collect();
    assert_eq!(
        unique.len(),
        messages.len(),
        "every reason reads distinctly"
    );
}

#[test]
fn test_drop_target_dir_of_a_directory_is_itself() {
    assert_eq!(drop_target_dir(EntryKind::Dir, "src"), "src");
}

#[test]
fn test_drop_target_dir_of_a_nested_file_is_its_parent() {
    assert_eq!(drop_target_dir(EntryKind::File, "src/main.rs"), "src");
}

#[test]
fn test_drop_target_dir_of_a_top_level_file_is_the_root() {
    assert_eq!(drop_target_dir(EntryKind::File, "README.md"), "");
}

#[test]
fn test_drops_into_own_subtree_is_true_for_a_directory_dropped_on_itself() {
    assert!(drops_into_own_subtree("src", EntryKind::Dir, "src"));
}

#[test]
fn test_drops_into_own_subtree_is_true_for_a_descendant_directory() {
    assert!(drops_into_own_subtree("src", EntryKind::Dir, "src/net"));
}

#[test]
fn test_drops_into_own_subtree_is_false_for_a_sibling_directory() {
    assert!(!drops_into_own_subtree("src", EntryKind::Dir, "lib"));
}

#[test]
fn test_drops_into_own_subtree_is_false_for_a_path_sharing_only_a_text_prefix() {
    assert!(!drops_into_own_subtree("src", EntryKind::Dir, "src2"));
}

#[test]
fn test_drops_into_own_subtree_is_false_for_a_dragged_file() {
    assert!(!drops_into_own_subtree(
        "src/main.rs",
        EntryKind::File,
        "src/main.rs"
    ));
}

#[test]
fn test_resolve_drop_onto_a_directory_moves_the_dragged_file_there() {
    assert_eq!(
        resolve_drop("top.rs", EntryKind::File, EntryKind::Dir, "src"),
        Some(("top.rs".to_owned(), "src/top.rs".to_owned()))
    );
}

#[test]
fn test_resolve_drop_onto_a_file_resolves_to_its_parent_directory() {
    assert_eq!(
        resolve_drop("top.rs", EntryKind::File, EntryKind::File, "src/main.rs"),
        Some(("top.rs".to_owned(), "src/top.rs".to_owned()))
    );
}

#[test]
fn test_resolve_drop_refuses_a_same_parent_noop_move() {
    assert_eq!(
        resolve_drop("src/lib.rs", EntryKind::File, EntryKind::Dir, "src"),
        None
    );
}

#[test]
fn test_resolve_drop_refuses_a_directory_dropped_into_its_own_descendant() {
    assert_eq!(
        resolve_drop("src", EntryKind::Dir, EntryKind::Dir, "src/net"),
        None
    );
}

#[test]
fn test_resolve_drop_refuses_a_directory_dropped_onto_itself() {
    assert_eq!(
        resolve_drop("src", EntryKind::Dir, EntryKind::Dir, "src"),
        None
    );
}

#[test]
fn test_resolve_drop_moves_a_directory_to_a_sibling_directory() {
    assert_eq!(
        resolve_drop("src", EntryKind::Dir, EntryKind::Dir, "lib"),
        Some(("src".to_owned(), "lib/src".to_owned()))
    );
}

#[test]
fn test_resolve_drop_onto_the_worktree_root_from_a_nested_file() {
    assert_eq!(
        resolve_drop("src/main.rs", EntryKind::File, EntryKind::File, "top.rs"),
        Some(("src/main.rs".to_owned(), "main.rs".to_owned()))
    );
}

#[test]
fn test_create_target_dir_of_a_selected_directory_is_itself() {
    let mut tree = seed(vec![dir("src"), file("src/main.rs")]);
    select(&mut tree, "src");
    assert_eq!(tree.create_target_dir(), "src");
}

#[test]
fn test_create_target_dir_of_a_selected_file_is_its_parent() {
    let mut tree = seed(vec![dir("src"), file("src/main.rs")]);
    select(&mut tree, "src/main.rs");
    assert_eq!(tree.create_target_dir(), "src");
}

#[test]
fn test_create_target_dir_of_a_selected_top_level_file_is_the_root() {
    let mut tree = seed(vec![file("README.md")]);
    select(&mut tree, "README.md");
    assert_eq!(tree.create_target_dir(), "");
}

#[test]
fn test_create_target_dir_with_nothing_selected_is_the_root() {
    let tree = seed(vec![dir("src"), file("README.md")]);
    assert_eq!(tree.create_target_dir(), "");
}

#[test]
fn test_create_target_dir_of_a_stale_selection_is_the_root() {
    let mut tree = seed(vec![file("a.rs")]);
    select(&mut tree, "gone.rs");
    assert_eq!(tree.create_target_dir(), "");
}

#[test]
fn test_apply_pending_reveal_selects_and_reveals_the_matching_path() {
    let mut tree = seed(vec![dir("src"), file("src/lib.rs")]);
    arm_reveal(&mut tree, "src/lib.rs");

    tree.apply_pending_reveal(&vec!["src/lib.rs".to_owned()]);

    assert_eq!(tree.selected(), Some("src/lib.rs"));
    assert!(
        tree.pending_reveal().is_none(),
        "the marker clears once the row is revealed"
    );
}

#[test]
fn test_apply_pending_reveal_ignores_unrelated_added_paths() {
    let mut tree = seed(vec![file("a.rs"), file("b.rs")]);
    arm_reveal(&mut tree, "b.rs");

    tree.apply_pending_reveal(&vec!["a.rs".to_owned()]);

    assert_eq!(tree.selected(), None);
    assert_eq!(
        tree.pending_reveal(),
        Some("b.rs"),
        "still armed — the pending path hasn't arrived yet"
    );
}

#[test]
fn test_apply_pending_reveal_with_nothing_pending_is_a_noop() {
    let mut tree = seed(vec![file("a.rs")]);
    tree.apply_pending_reveal(&vec!["a.rs".to_owned()]);
    assert_eq!(tree.selected(), None);
}
