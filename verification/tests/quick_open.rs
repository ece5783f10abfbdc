use rift::file_tree::FileTreeEvent;
use rift::fuzzy_match::{fuzzy_match, tidy};
use rift::protocol::{EntryKind, WorktreeEntry};
use rift::quick_open::{filter_files, rank_files, QuickOpen};
use rift::rows::match_files;
use rift::worktree::WorktreeModel;

fn file(path: &str) -> WorktreeEntry {
    WorktreeEntry { path: path.to_owned(), kind: EntryKind::File, ignored: false }
}

fn dir(path: &str) -> WorktreeEntry {
    WorktreeEntry { path: path.to_owned(), kind: EntryKind::Dir, ignored: false }
}

fn model_with(entries: Vec<WorktreeEntry>) -> WorktreeModel {
    let mut model = WorktreeModel::default();
    model.apply_snapshot_chunk("/proj".into(), entries, true);
    model
}

#[test]
fn test_filter_files_empty_query_lists_every_file_excluding_directories() {
    let model = model_with(vec![dir("src"), file("src/main.rs"), file("README.md")]);

    let mut matches = filter_files(&model, "");
    matches.sort();

    assert_eq!(matches, vec!["README.md", "src/main.rs"]);
}

#[test]
fn test_filter_files_ranks_matches_by_score_descending() {
    let model = model_with(vec![file("main.rs"), file("m_a_i_n.rs")]);

    let matches = filter_files(&model, "main");

    assert_eq!(matches, vec!["main.rs", "m_a_i_n.rs"]);
}

#[test]
fn test_filter_files_no_match_returns_empty() {
    let model = model_with(vec![file("main.rs")]);

    assert!(filter_files(&model, "zzz-no-such-file").is_empty());
}

#[test]
fn test_filter_files_never_returns_a_directory() {
    let model = model_with(vec![dir("target"), file("target/debug")]);

    let matches = filter_files(&model, "target");

    assert_eq!(matches, vec!["target/debug"]);
}

#[test]
fn test_open_lists_every_file_and_selects_the_first_row() {
    let model = model_with(vec![file("main.rs"), file("lib.rs")]);
    let mut quick_open = QuickOpen::new();
    quick_open.perform_search(&model, "zzz-stale-query");
    assert_eq!(quick_open.items_count(), 0);
    quick_open.set_selected_index(None);

    quick_open.open(&model);

    let mut matches = quick_open.matches().clone();
    matches.sort();
    assert_eq!(matches, vec!["lib.rs", "main.rs"]);
    assert_eq!(quick_open.selected_index(), Some(0), "reopening selects the first row");
}

#[test]
fn test_confirm_closes_the_dialog_and_emits_open_file_on_the_shared_file_tree() {
    let model = model_with(vec![file("main.rs"), file("lib.rs")]);
    let mut quick_open = QuickOpen::new();
    quick_open.open(&model);
    quick_open.set_selected_index(Some(0));

    assert_eq!(
        quick_open.confirm(),
        Some(FileTreeEvent::OpenFile { path: "lib.rs".to_owned() })
    );
}

#[test]
fn nothing_is_opened_without_a_listed_selection() {
    let model = model_with(vec![file("main.rs")]);
    let mut quick_open = QuickOpen::new();
    assert_eq!(quick_open.confirm(), None);
    quick_open.open(&model);
    quick_open.set_selected_index(Some(7));
    assert_eq!(quick_open.confirm(), None);
    quick_open.set_selected_index(None);
    assert_eq!(quick_open.confirm(), None);
}

#[test]
fn a_row_shows_its_path_and_whether_it_is_selected() {
    let model = model_with(vec![file("a.rs"), file("b.rs")]);
    let mut quick_open = QuickOpen::new();
    quick_open.open(&model);
    assert_eq!(quick_open.present_row(0), Some(("a.rs".to_owned(), true)));
    assert_eq!(quick_open.present_row(1), Some(("b.rs".to_owned(), false)));
    assert_eq!(quick_open.present_row(2), None);
}

#[test]
fn equally_good_files_are_listed_by_path() {
    let model = model_with(vec![file("b/x.rs"), file("a/x.rs"), dir("a"), dir("b")]);
    assert_eq!(filter_files(&model, "x.rs"), vec!["a/x.rs", "b/x.rs"]);
    assert_eq!(filter_files(&model, "  "), vec!["a/x.rs", "b/x.rs"]);
}

#[test]
fn ranking_skips_what_did_not_match() {
    let model = model_with(vec![file("lib.rs"), file("main.rs"), file("maintain.rs")]);
    let found = match_files(&model, "main");
    let order = rank_files(model.entries(), &found);
    assert_eq!(order.len(), 2);
    assert!(order.contains(&1) && order.contains(&2));
}

#[test]
fn test_fuzzy_match_query_matching_prefix_returns_score_and_indices() {
    let result = fuzzy_match("main", "main.rs").expect("prefix subsequence matches");

    assert_eq!(result.matched_indices, vec![0, 1, 2, 3]);
    assert!(result.score > 0);
}

#[test]
fn test_fuzzy_match_empty_query_matches_every_candidate_with_no_indices() {
    let result = fuzzy_match("", "main.rs").expect("empty query matches everything");

    assert_eq!(result.score, 0);
    assert!(result.matched_indices.is_empty());

    let result = fuzzy_match("   ", "").expect("whitespace-only query still matches");
    assert!(result.matched_indices.is_empty());
}

#[test]
fn test_fuzzy_match_non_ascii_candidate_reports_correct_character_positions() {
    let candidate = "café/main.rs";
    let result = fuzzy_match("café", candidate).expect("exact-order subsequence matches");

    let matched: String = result
        .matched_indices
        .iter()
        .map(|&index| candidate.chars().nth(index).expect("index is in range"))
        .collect();
    assert_eq!(matched, "café");
}

#[test]
fn test_fuzzy_match_out_of_order_characters_does_not_match() {
    assert!(fuzzy_match("rma", "main.rs").is_none());
}

#[test]
fn test_fuzzy_match_unrelated_query_does_not_match() {
    assert!(fuzzy_match("xyz", "main.rs").is_none());
}

#[test]
fn test_fuzzy_match_ranks_a_contiguous_match_higher_than_a_scattered_one() {
    let tight = fuzzy_match("main", "main.rs").expect("contiguous match");
    let scattered = fuzzy_match("main", "m_a_i_n.rs").expect("scattered match");

    assert!(tight.score > scattered.score);
}

#[test]
fn a_report_is_sorted_and_rid_of_repeats() {
    let found = tidy(Some((9, vec![5, 1, 5, 3, 1]))).expect("a match");
    assert_eq!(found.score, 9);
    assert_eq!(found.matched_indices, vec![1, 3, 5]);
    assert_eq!(tidy(None), None);
}

#[test]
fn a_query_reaches_into_the_directories_above() {
    let candidate = "crates/app/src/main.rs";
    let found = fuzzy_match("app main", candidate).expect("both words match");
    let matched: String =
        found.matched_indices.iter().map(|&i| candidate.chars().nth(i).unwrap()).collect();
    assert_eq!(matched, "appmain");
}

#[test]
fn a_word_matches_where_its_characters_appear_in_order() {
    let candidate = "src/Main_Loop.rs";
    let found = fuzzy_match("mlp", candidate).expect("a subsequence");
    assert_eq!(found.matched_indices.len(), 3);
    let matched: String =
        found.matched_indices.iter().map(|&i| candidate.chars().nth(i).unwrap()).collect();
    assert_eq!(matched.to_lowercase(), "mlp");
    assert_eq!(fuzzy_match("plm", candidate), None);
}

#[test]
fn punctuation_stands_for_itself() {
    assert_eq!(fuzzy_match("^main", "main.rs"), None);
    assert_eq!(fuzzy_match("!zzz", "main.rs"), None);
    assert_eq!(fuzzy_match("'main", "main.rs"), None);
    assert_eq!(fuzzy_match("rs$", "main.rs"), None);
    assert_eq!(fuzzy_match("!a$", "x!a$").unwrap().matched_indices, vec![1, 2, 3]);
}

#[test]
fn a_backslash_in_a_path_is_a_character_like_any_other() {
    assert_eq!(fuzzy_match("ab", "a\\b").unwrap().matched_indices, vec![0, 2]);
    assert_eq!(fuzzy_match("ba", "a\\b"), None);
}

#[test]
fn an_accented_query_finds_the_odd_lower_case_letters() {
    let found = fuzzy_match("\u{3c3}\u{e9}", "\u{3c2}\u{3c3}x\u{e9}").expect("a match");
    assert_eq!(found.score, 46);
    assert_eq!(found.matched_indices, vec![0, 3]);
    let found = fuzzy_match("s\u{e9}", "\u{17f}sx\u{e9}").expect("a match");
    assert_eq!(found.matched_indices, vec![0, 3]);
    assert_eq!(fuzzy_match("s\u{e9}", "\u{17f}sxe"), None);
}

#[test]
fn a_plain_query_finds_accented_letters() {
    assert_eq!(fuzzy_match("cafe", "caf\u{e9}").unwrap().matched_indices, vec![0, 1, 2, 3]);
    assert_eq!(fuzzy_match("caf\u{e9}", "cafe"), None);
}

#[test]
fn long_queries_are_ranked_as_far_as_scores_reach() {
    let most = "a".repeat(2621);
    let found = fuzzy_match(&most, &most).expect("the very text");
    assert_eq!(found.score, 65534);
    assert_eq!(found.matched_indices.len(), 2621);
    assert_eq!(fuzzy_match(&most, &"a".repeat(3000)).unwrap().score, 65534);

    let words = "a ".repeat(2000);
    assert_eq!(fuzzy_match(&words, "a").unwrap().score, 68000);
    assert_eq!(fuzzy_match(&words, &"a".repeat(3000)).unwrap().matched_indices, vec![0]);
}

#[test]
fn longer_queries_match_where_their_characters_appear_in_order() {
    let more = "a".repeat(2622);
    assert_eq!(fuzzy_match(&more, "a.rs"), None);
    let found = fuzzy_match(&more, &more).expect("the very text");
    assert_eq!(found.score, u32::MAX);
    assert_eq!(found.matched_indices, (0..2622).collect::<Vec<usize>>());

    let behind = format!("x{}", "A".repeat(2622));
    let found = fuzzy_match(&more, &behind).expect("a subsequence");
    assert_eq!(found.score, u32::MAX);
    assert_eq!(found.matched_indices, (1..2623).collect::<Vec<usize>>());

    let short_by_one = format!("{}b", "a".repeat(2621));
    assert_eq!(fuzzy_match(&more, &short_by_one), None);
    let with_more = format!("{more} x b");
    assert_eq!(fuzzy_match(&with_more, &format!("{behind}c")), None);
    let found = fuzzy_match(&with_more, &format!("{behind}b")).expect("every word is there");
    assert_eq!(found.matched_indices, (0..2624).collect::<Vec<usize>>());
}

#[test]
fn long_accented_words_are_told_apart_and_plain_ones_are_not() {
    let plain = "e".repeat(2622);
    let accented = "\u{e9}".repeat(2622);
    let capital = "\u{c9}".repeat(2622);
    assert_eq!(fuzzy_match(&plain, &accented).unwrap().matched_indices.len(), 2622);
    assert_eq!(fuzzy_match(&plain, &capital).unwrap().matched_indices.len(), 2622);
    assert_eq!(fuzzy_match(&accented, &capital).unwrap().matched_indices.len(), 2622);
    assert_eq!(fuzzy_match(&accented, &plain), None);
}

#[test]
fn a_backslash_in_a_query_beyond_ascii_stands_for_itself() {
    let found = fuzzy_match("\u{e9}\\x", "a/\u{e9}\\x.rs").expect("the very characters");
    assert_eq!(found.score, u32::MAX);
    assert_eq!(found.matched_indices, vec![2, 3, 4]);
    assert_eq!(fuzzy_match("\u{e9}\\x", "a/\u{e9}x.rs"), None);

    let ascii_word = fuzzy_match("\u{e9} a\\b", "\u{e9}/a\\b.rs").expect("both words are there");
    assert_eq!(ascii_word.matched_indices, vec![0, 2, 3, 4]);
    assert!(ascii_word.score < u32::MAX);
    let scattered = fuzzy_match("\u{e9} a\\b", "\u{e9}/a_\\_b.rs").expect("both words are there");
    assert!(scattered.score < ascii_word.score);
    let escaped = fuzzy_match("\u{e9}\\ b", "\u{e9}\\ b.rs").expect("the very characters");
    assert_eq!(escaped.matched_indices, vec![0, 1, 2, 3]);
    assert!(escaped.score < u32::MAX);
    let last = fuzzy_match("\u{e9}\\", "\u{e9}\\x").expect("the very characters");
    assert_eq!(last.matched_indices, vec![0, 1]);
    assert!(last.score < u32::MAX);

    let query = format!("\u{e9}{}", "\\".repeat(1311));
    let candidate = format!("\u{e9}{}", "\\".repeat(2621));
    let found = fuzzy_match(&query, &candidate).expect("a subsequence");
    assert_eq!(found.matched_indices, (0..1312).collect::<Vec<usize>>());
}

#[test]
fn an_escaped_space_belongs_to_its_word() {
    let found = fuzzy_match("b\\ a", "a b a").expect("one word with a space in it");
    assert_eq!(found.matched_indices, vec![2, 3, 4]);
    assert_eq!(fuzzy_match("b\\ a", "a/ba"), None);
    let long = "c".repeat(2622);
    let query = format!("b\\ a {long}");
    assert_eq!(fuzzy_match(&query, &format!("ab{long}")), None);
    let found = fuzzy_match(&query, &format!("b a{long}")).expect("every word is there");
    assert_eq!(found.matched_indices, (0..2625).collect::<Vec<usize>>());
}

#[test]
fn case_plays_no_part_in_matching() {
    let upper = fuzzy_match("MAIN", "src/main.rs").expect("matches");
    let lower = fuzzy_match("main", "src/main.rs").expect("matches");
    assert_eq!(upper, lower);
}

#[test]
fn positions_count_characters_in_decomposed_text() {
    let candidate = "e\u{301}/main.rs";
    let found = fuzzy_match("main", candidate).expect("matches");
    let matched: String =
        found.matched_indices.iter().map(|&i| candidate.chars().nth(i).unwrap()).collect();
    assert_eq!(matched, "main");
}

#[test]
fn a_query_of_any_white_space_matches_everything() {
    let found = fuzzy_match("\t \u{3000}", "main.rs").expect("there is no word to miss");
    assert_eq!(found.score, 0);
    assert!(found.matched_indices.is_empty());
}

#[test]
fn a_query_has_one_listing() {
    let left = model_with(vec![file("b/main.rs"), file("a/main.rs"), file("lib.rs")]);
    let right = model_with(vec![file("lib.rs"), file("a/main.rs"), file("b/main.rs")]);
    assert_eq!(filter_files(&left, "main"), vec!["a/main.rs", "b/main.rs"]);
    assert_eq!(filter_files(&left, "main"), filter_files(&right, "main"));
}
