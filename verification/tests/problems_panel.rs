use rift::file_tree::presentation::Tone;
use rift::problems_panel::{
    counts_line, entry_label, entry_place, pluralize, severity_ordinal, ProblemPresentation, ProblemRow,
    ProblemsPanel, ProblemsPanelEvent, ProblemsSummary, SeverityCounts,
};
use rift::protocol::{Diagnostic, DiagnosticSeverity, Position, Range};
use rift::worktree::WorktreeModel;

fn diag(line: u32, character: u32, severity: DiagnosticSeverity, message: &str) -> Diagnostic {
    Diagnostic {
        range: Range {
            start: Position { line, character },
            end: Position { line, character: character + 1 },
        },
        severity,
        message: message.to_owned(),
        source: None,
        code: None,
    }
}

fn map_of(entries: Vec<(&str, &str, Vec<Diagnostic>)>) -> WorktreeModel {
    let mut model = WorktreeModel::default();
    for (path, server, items) in entries {
        model.apply_diagnostics(path.to_owned(), server.to_owned(), items);
    }
    model
}

#[test]
fn test_empty_map_yields_empty_summary() {
    let summary = ProblemsSummary::from_diagnostics(WorktreeModel::default().all_diagnostics());
    assert!(summary.groups.is_empty());
    assert_eq!(summary.totals, SeverityCounts::default());
}

#[test]
fn test_rows_threads_the_owning_file_path_onto_each_entry() {
    let map = map_of(vec![(
        "a.rs",
        "rust-analyzer",
        vec![diag(1, 0, DiagnosticSeverity::Error, "e1")],
    )]);
    let summary = ProblemsSummary::from_diagnostics(map.all_diagnostics());

    let rows = ProblemsPanel::rows(&summary);
    assert_eq!(rows.len(), 2, "one header row + one entry row");
    match &rows[1] {
        ProblemRow::Entry { path, diagnostic } => {
            assert_eq!(path, "a.rs");
            assert_eq!(diagnostic.message, "e1");
        }
        other => panic!("expected an entry row, got {other:?}"),
    }
}

#[test]
fn test_group_flattens_diagnostics_across_servers_for_one_file() {
    let map = map_of(vec![
        (
            "a.rs",
            "rust-analyzer",
            vec![diag(1, 0, DiagnosticSeverity::Error, "mismatched types")],
        ),
        (
            "a.rs",
            "clippy",
            vec![diag(3, 0, DiagnosticSeverity::Warning, "needless clone")],
        ),
    ]);

    let summary = ProblemsSummary::from_diagnostics(map.all_diagnostics());
    assert_eq!(summary.groups.len(), 1);
    assert_eq!(summary.groups[0].path, "a.rs");
    assert_eq!(summary.groups[0].diagnostics.len(), 2);
}

#[test]
fn test_entries_within_a_file_sort_by_severity_then_location() {
    let map = map_of(vec![(
        "a.rs",
        "rust-analyzer",
        vec![
            diag(5, 0, DiagnosticSeverity::Warning, "unused variable"),
            diag(1, 2, DiagnosticSeverity::Error, "second error"),
            diag(1, 0, DiagnosticSeverity::Error, "first error"),
            diag(2, 0, DiagnosticSeverity::Hint, "a hint"),
        ],
    )]);

    let summary = ProblemsSummary::from_diagnostics(map.all_diagnostics());
    let messages: Vec<&str> = summary.groups[0]
        .diagnostics
        .iter()
        .map(|d| d.message.as_str())
        .collect();
    assert_eq!(
        messages,
        vec!["first error", "second error", "unused variable", "a hint"]
    );
}

#[test]
fn test_files_with_errors_surface_before_files_without() {
    let map = map_of(vec![
        (
            "warn_only.rs",
            "rust-analyzer",
            vec![diag(1, 0, DiagnosticSeverity::Warning, "unused import")],
        ),
        (
            "has_error.rs",
            "rust-analyzer",
            vec![diag(1, 0, DiagnosticSeverity::Error, "mismatched types")],
        ),
    ]);

    let summary = ProblemsSummary::from_diagnostics(map.all_diagnostics());
    let paths: Vec<&str> = summary.groups.iter().map(|g| g.path.as_str()).collect();
    assert_eq!(paths, vec!["has_error.rs", "warn_only.rs"]);
}

#[test]
fn test_files_with_equal_worst_severity_tie_break_by_path() {
    let map = map_of(vec![
        (
            "z.rs",
            "rust-analyzer",
            vec![diag(1, 0, DiagnosticSeverity::Error, "e")],
        ),
        (
            "a.rs",
            "rust-analyzer",
            vec![diag(1, 0, DiagnosticSeverity::Error, "e")],
        ),
    ]);

    let summary = ProblemsSummary::from_diagnostics(map.all_diagnostics());
    let paths: Vec<&str> = summary.groups.iter().map(|g| g.path.as_str()).collect();
    assert_eq!(paths, vec!["a.rs", "z.rs"]);
}

#[test]
fn test_per_file_and_aggregate_counts_are_correct() {
    let map = map_of(vec![
        (
            "a.rs",
            "rust-analyzer",
            vec![
                diag(1, 0, DiagnosticSeverity::Error, "e1"),
                diag(2, 0, DiagnosticSeverity::Error, "e2"),
                diag(3, 0, DiagnosticSeverity::Warning, "w1"),
            ],
        ),
        (
            "b.rs",
            "clippy",
            vec![
                diag(1, 0, DiagnosticSeverity::Warning, "w2"),
                diag(2, 0, DiagnosticSeverity::Hint, "h1"),
            ],
        ),
    ]);

    let summary = ProblemsSummary::from_diagnostics(map.all_diagnostics());
    let a = summary
        .groups
        .iter()
        .find(|g| g.path == "a.rs")
        .expect("a.rs present");
    assert_eq!(a.counts.errors, 2);
    assert_eq!(a.counts.warnings, 1);

    let b = summary
        .groups
        .iter()
        .find(|g| g.path == "b.rs")
        .expect("b.rs present");
    assert_eq!(b.counts.warnings, 1);
    assert_eq!(b.counts.hints, 1);

    assert_eq!(summary.totals.errors, 2);
    assert_eq!(summary.totals.warnings, 2);
    assert_eq!(summary.totals.hints, 1);
}

#[test]
fn test_diagnostic_for_a_path_with_no_tree_entry_still_lists() {
    let map = map_of(vec![(
        "generated/out.rs",
        "rust-analyzer",
        vec![diag(
            1,
            0,
            DiagnosticSeverity::Error,
            "generated file error",
        )],
    )]);

    let summary = ProblemsSummary::from_diagnostics(map.all_diagnostics());
    assert_eq!(summary.groups.len(), 1);
    assert_eq!(summary.groups[0].path, "generated/out.rs");
}

#[test]
fn test_counts_line_pluralizes_singular_counts() {
    assert_eq!(
        counts_line(&SeverityCounts {
            errors: 1,
            warnings: 0,
            infos: 0,
            hints: 0,
        }),
        "1 error, 0 warnings"
    );
    assert_eq!(
        counts_line(&SeverityCounts {
            errors: 2,
            warnings: 1,
            infos: 0,
            hints: 0,
        }),
        "2 errors, 1 warning"
    );
}

#[test]
fn test_refresh_cache_reflects_a_diagnostic_added_then_cleared() {
    let mut model = WorktreeModel::default();
    let mut panel = ProblemsPanel::new();
    assert!(panel.is_dirty(), "a fresh panel starts dirty");
    panel.refresh_cache(&model);
    assert!(panel.row_cache().is_empty(), "nothing reported yet");

    model.apply_snapshot_chunk("/proj".into(), Vec::new(), true);
    model.apply_diagnostics(
        "a.rs".into(),
        "rust-analyzer".into(),
        vec![diag(1, 0, DiagnosticSeverity::Error, "mismatched types")],
    );
    panel.worktree_changed();
    assert!(panel.is_dirty());
    panel.refresh_cache(&model);
    assert!(!panel.is_dirty());
    assert_eq!(panel.row_cache().len(), 2, "one header row + one entry row for a.rs");
    assert_eq!(panel.cached_summary().totals.errors, 1);

    model.apply_diagnostics("a.rs".into(), "rust-analyzer".into(), vec![]);
    panel.worktree_changed();
    panel.refresh_cache(&model);
    assert!(panel.row_cache().is_empty());
    assert_eq!(panel.cached_summary().totals.errors, 0);
}

#[test]
fn a_clean_cache_is_not_rebuilt() {
    let mut model = WorktreeModel::default();
    let mut panel = ProblemsPanel::new();
    panel.refresh_cache(&model);
    model.apply_diagnostics(
        "a.rs".into(),
        "rust-analyzer".into(),
        vec![diag(0, 0, DiagnosticSeverity::Hint, "h")],
    );
    panel.refresh_cache(&model);
    assert!(panel.row_cache().is_empty());
    assert_eq!(panel.headline(), None);
    panel.worktree_changed();
    panel.refresh_cache(&model);
    assert_eq!(panel.headline(), Some("0 errors, 0 warnings".to_owned()));
}

#[test]
fn severities_are_listed_from_error_to_hint() {
    assert_eq!(severity_ordinal(DiagnosticSeverity::Error), 0);
    assert_eq!(severity_ordinal(DiagnosticSeverity::Warning), 1);
    assert_eq!(severity_ordinal(DiagnosticSeverity::Information), 2);
    assert_eq!(severity_ordinal(DiagnosticSeverity::Hint), 3);
}

#[test]
fn the_worst_ordinal_is_that_of_the_worst_count() {
    let mut counts = SeverityCounts { errors: 0, warnings: 0, infos: 0, hints: 2 };
    assert_eq!(counts.worst_ordinal(), 3);
    counts.add(&SeverityCounts { errors: 0, warnings: 0, infos: 1, hints: 1 });
    assert_eq!(counts, SeverityCounts { errors: 0, warnings: 0, infos: 1, hints: 3 });
    assert_eq!(counts.worst_ordinal(), 2);
    counts.warnings = 1;
    assert_eq!(counts.worst_ordinal(), 1);
    counts.errors = 1;
    assert_eq!(counts.worst_ordinal(), 0);
}

#[test]
fn counts_of_one_are_singular() {
    assert_eq!(pluralize(0, "error"), "0 errors");
    assert_eq!(pluralize(1, "error"), "1 error");
    assert_eq!(pluralize(12, "hint"), "12 hints");
}

#[test]
fn equal_diagnostics_keep_their_order() {
    let map = map_of(vec![(
        "a.rs",
        "ls",
        vec![
            diag(1, 0, DiagnosticSeverity::Error, "one"),
            diag(1, 0, DiagnosticSeverity::Error, "two"),
            diag(0, 9, DiagnosticSeverity::Error, "zero"),
        ],
    )]);
    let summary = ProblemsSummary::from_diagnostics(map.all_diagnostics());
    let messages: Vec<&str> =
        summary.groups[0].diagnostics.iter().map(|d| d.message.as_str()).collect();
    assert_eq!(messages, vec!["zero", "one", "two"]);
}

#[test]
fn an_entry_names_its_place_from_one() {
    let item = diag(4, 7, DiagnosticSeverity::Warning, "unused");
    assert_eq!(entry_place(&item), "5:8");
    assert!(entry_label(&item).contains("unused"));
}

#[test]
fn a_click_on_an_entry_jumps_to_it_and_a_header_does_nothing() {
    let map = map_of(vec![("a.rs", "ls", vec![diag(1, 0, DiagnosticSeverity::Error, "e")])]);
    let summary = ProblemsSummary::from_diagnostics(map.all_diagnostics());
    let rows = ProblemsPanel::rows(&summary);
    assert_eq!(rows[0].click(), None);
    assert_eq!(
        rows[1].click(),
        Some(ProblemsPanelEvent::OpenLocation {
            path: "a.rs".to_owned(),
            range: diag(1, 0, DiagnosticSeverity::Error, "e").range,
        })
    );
}

#[test]
fn a_row_is_painted_with_its_counts_or_its_place() {
    let mut item = diag(4, 7, DiagnosticSeverity::Warning, "unused");
    item.source = Some("rustc".to_owned());
    item.code = Some("W1".to_owned());
    let map = map_of(vec![("a.rs", "ls", vec![item])]);
    let summary = ProblemsSummary::from_diagnostics(map.all_diagnostics());
    let rows = ProblemsPanel::rows(&summary);
    assert_eq!(
        rows[0].present(),
        ProblemPresentation::Header {
            path: "a.rs".to_owned(),
            counts: "0 errors, 1 warning".to_owned(),
        }
    );
    assert_eq!(
        rows[1].present(),
        ProblemPresentation::Entry {
            dot: Tone::Warning,
            place: "5:8".to_owned(),
            label: "[rustc] unused (W1)".to_owned(),
        }
    );
}
