use rift::file_tree::presentation::Tone;
use rift::outline_panel::{
    build_rows, category_color, innermost_symbol_index, symbol_category, symbol_glyph,
    OutlineContent, OutlinePanel, OutlinePanelEvent, SymbolCategory,
};
use rift::protocol::{DocumentSymbolEntry, Position, Range, SymbolKind};

fn sym(name: &str, depth: u32, start: (u32, u32), end: (u32, u32)) -> DocumentSymbolEntry {
    let range = Range {
        start: Position { line: start.0, character: start.1 },
        end: Position { line: end.0, character: end.1 },
    };
    DocumentSymbolEntry {
        name: name.to_owned(),
        kind: SymbolKind::Function,
        range,
        selection_range: range,
        depth,
    }
}

fn at(line: u32) -> Option<Position> {
    Some(Position { line, character: 0 })
}

#[test]
fn test_build_rows_uses_selection_range_not_range() {
    let mut entry = sym("fn render", 1, (2, 4), (8, 5));
    entry.selection_range = Range {
        start: Position {
            line: 2,
            character: 7,
        },
        end: Position {
            line: 2,
            character: 13,
        },
    };
    let symbols = vec![entry];
    let rows = build_rows(&symbols);
    let entry = &symbols[0];
    assert_eq!(rows[0].range, entry.selection_range);
    assert_ne!(rows[0].range, entry.range);
}

#[test]
fn test_build_rows_preserves_list_order_and_depth() {
    let symbols = vec![
        sym("impl View", 0, (0, 0), (10, 1)),
        sym("fn render", 1, (1, 4), (8, 5)),
    ];
    let rows = build_rows(&symbols);
    assert_eq!(
        rows.iter().map(|r| r.name.as_str()).collect::<Vec<_>>(),
        vec!["impl View", "fn render"]
    );
    assert_eq!(rows.iter().map(|r| r.depth).collect::<Vec<_>>(), vec![0, 1]);
}

#[test]
fn test_innermost_symbol_index_picks_the_deepest_enclosing_symbol() {
    let symbols = vec![
        sym("impl View", 0, (0, 0), (10, 1)),
        sym("fn render", 1, (2, 4), (8, 5)),
        sym("|event|", 2, (4, 8), (6, 9)),
    ];
    assert_eq!(innermost_symbol_index(&symbols, 5, 0), Some(2));
    assert_eq!(innermost_symbol_index(&symbols, 3, 0), Some(1));
    assert_eq!(innermost_symbol_index(&symbols, 0, 0), Some(0));
}

#[test]
fn test_innermost_symbol_index_is_none_outside_every_symbol() {
    let symbols = vec![sym("fn render", 0, (2, 4), (8, 5))];
    assert_eq!(innermost_symbol_index(&symbols, 100, 0), None);
    assert_eq!(innermost_symbol_index(&Vec::new(), 0, 0), None);
}

#[test]
fn test_symbol_glyph_is_distinct_per_kind() {
    let kinds = [
        SymbolKind::File,
        SymbolKind::Module,
        SymbolKind::Namespace,
        SymbolKind::Package,
        SymbolKind::Class,
        SymbolKind::Method,
        SymbolKind::Property,
        SymbolKind::Field,
        SymbolKind::Constructor,
        SymbolKind::Enum,
        SymbolKind::Interface,
        SymbolKind::Function,
        SymbolKind::Variable,
        SymbolKind::Constant,
        SymbolKind::String,
        SymbolKind::Number,
        SymbolKind::Boolean,
        SymbolKind::Array,
        SymbolKind::Object,
        SymbolKind::Key,
        SymbolKind::Null,
        SymbolKind::EnumMember,
        SymbolKind::Struct,
        SymbolKind::Event,
        SymbolKind::Operator,
        SymbolKind::TypeParameter,
    ];
    let mut glyphs: Vec<&str> = kinds.iter().map(|k| symbol_glyph(*k)).collect();
    let before = glyphs.len();
    glyphs.sort_unstable();
    glyphs.dedup();
    assert_eq!(
        glyphs.len(),
        before,
        "every SymbolKind must render a distinct glyph"
    );
}

#[test]
fn test_symbol_category_groups_related_kinds() {
    assert_eq!(symbol_category(SymbolKind::Struct), SymbolCategory::Type);
    assert_eq!(
        symbol_category(SymbolKind::Method),
        SymbolCategory::Function
    );
    assert_eq!(symbol_category(SymbolKind::Constant), SymbolCategory::Value);
    assert_eq!(
        symbol_category(SymbolKind::Module),
        SymbolCategory::Container
    );
}

#[test]
fn test_refresh_cache_builds_rows_and_tracks_selection_across_cursor_moves() {
    let symbols =
        vec![sym("impl View", 0, (0, 0), (10, 1)), sym("fn render", 1, (2, 4), (8, 5))];
    let mut panel = OutlinePanel::new();
    panel.refresh_cache(&symbols, at(0));
    assert_eq!(panel.row_cache().len(), 2, "one row per document symbol");
    assert_eq!(panel.row_cache()[0].name, "impl View");
    assert_eq!(panel.row_cache()[1].name, "fn render");

    panel.editor_changed();
    panel.refresh_cache(&symbols, at(3));
    assert_eq!(panel.selected_row(), Some(1), "inside `fn render`");

    panel.editor_changed();
    panel.refresh_cache(&symbols, at(50));
    assert_eq!(panel.selected_row(), None, "outside every symbol");
}

#[test]
fn test_observing_the_editor_marks_the_cache_dirty() {
    let mut panel = OutlinePanel::new();
    panel.refresh_cache(&Vec::new(), None);
    assert!(!panel.is_dirty());

    panel.editor_changed();
    assert!(panel.is_dirty());
    panel.refresh_cache(&vec![sym("fn render", 0, (0, 0), (5, 1))], None);
    assert_eq!(panel.row_cache().len(), 1);
}

#[test]
fn test_jump_target_returns_the_open_paths_selection_range() {
    let mut panel = OutlinePanel::new();
    panel.refresh_cache(&vec![sym("fn render", 0, (2, 4), (8, 5))], None);
    let range = Range {
        start: Position { line: 2, character: 4 },
        end: Position { line: 8, character: 5 },
    };
    assert_eq!(panel.jump_target(0, Some("a.rs")), Some(("a.rs".to_owned(), range)));
    assert_eq!(
        panel.click(0, Some("a.rs")),
        Some(OutlinePanelEvent::OpenLocation { path: "a.rs".to_owned(), range })
    );
}

#[test]
fn test_jump_target_is_none_when_no_file_is_open() {
    let mut panel = OutlinePanel::new();
    panel.refresh_cache(&Vec::new(), None);
    assert_eq!(panel.jump_target(0, None), None);
    assert_eq!(panel.click(0, None), None);
}

#[test]
fn test_jump_target_is_none_for_an_out_of_range_index() {
    let mut panel = OutlinePanel::new();
    panel.refresh_cache(&vec![sym("fn render", 0, (2, 4), (8, 5))], None);
    assert_eq!(panel.jump_target(5, Some("a.rs")), None);
}

#[test]
fn a_clean_outline_is_not_rebuilt() {
    let mut panel = OutlinePanel::new();
    panel.refresh_cache(&Vec::new(), None);
    panel.refresh_cache(&vec![sym("f", 0, (0, 0), (1, 0))], at(0));
    assert!(panel.row_cache().is_empty());
    assert_eq!(panel.selected_row(), None);
}

#[test]
fn the_last_of_equally_deep_symbols_is_the_innermost() {
    let symbols = vec![
        sym("a", 1, (0, 0), (9, 0)),
        sym("b", 1, (0, 0), (9, 0)),
        sym("c", 0, (0, 0), (9, 0)),
    ];
    assert_eq!(innermost_symbol_index(&symbols, 4, 0), Some(1));
}

#[test]
fn both_ends_of_a_symbol_are_inside_it() {
    let symbols = vec![sym("f", 0, (2, 4), (8, 5))];
    assert_eq!(innermost_symbol_index(&symbols, 2, 4), Some(0));
    assert_eq!(innermost_symbol_index(&symbols, 2, 3), None);
    assert_eq!(innermost_symbol_index(&symbols, 8, 5), Some(0));
    assert_eq!(innermost_symbol_index(&symbols, 8, 6), None);
}

#[test]
fn the_outline_tells_why_it_is_empty() {
    let mut panel = OutlinePanel::new();
    panel.refresh_cache(&Vec::new(), None);
    assert_eq!(panel.content(false), OutlineContent::NoFile);
    assert_eq!(panel.content(true), OutlineContent::NoSymbols);
    assert_eq!(OutlineContent::NoFile.placeholder(), Some("No file open"));
    assert_eq!(OutlineContent::NoSymbols.placeholder(), Some("No symbols"));
    panel.editor_changed();
    panel.refresh_cache(&vec![sym("f", 0, (0, 0), (1, 0))], None);
    assert_eq!(panel.content(true), OutlineContent::Rows);
    assert_eq!(OutlineContent::Rows.placeholder(), None);
}

#[test]
fn a_row_is_indented_by_its_depth_and_coloured_by_its_category() {
    let mut panel = OutlinePanel::new();
    panel.refresh_cache(&vec![sym("f", 3, (0, 0), (1, 0))], at(0));
    let painted = panel.present_row(0);
    assert_eq!(painted.indent, 42);
    assert_eq!(painted.glyph, "f");
    assert_eq!(painted.tone, Tone::Accent);
    assert!(painted.selected);
    assert_eq!(category_color(SymbolCategory::Type), Tone::Info);
    assert_eq!(category_color(SymbolCategory::Value), Tone::Success);
    assert_eq!(category_color(SymbolCategory::Container), Tone::Muted);
}
