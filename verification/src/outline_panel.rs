//! The outline panel: the symbols of the open document, one row each.

use vstd::prelude::*;

use crate::file_tree::presentation::Tone;
use crate::protocol::{DocumentSymbolEntry, Position, Range, SymbolKind};

verus! {

/// The identity of the outline panel in a saved layout.
pub const OUTLINE_PANEL_NAME: &'static str = "outline";

/// The indent that each nesting level adds, in pixels.
pub const OUTLINE_INDENT_PER_LEVEL: u64 = 14;

/// What the panel asks of the rest of the shell.
#[derive(Debug, PartialEq, Eq)]
pub enum OutlinePanelEvent {
    /// Jump to `range` in the open file.
    OpenLocation { path: String, range: Range },
}

// ---------------------------------------------------------------------------
// Symbol kinds
// ---------------------------------------------------------------------------

/// What a symbol broadly is; it colours the glyph.
#[derive(Clone, Copy, Debug, PartialEq, Eq, Structural)]
pub enum SymbolCategory {
    Type,
    Function,
    Value,
    Container,
}

/// The category of a kind.
pub open spec fn category_of(kind: SymbolKind) -> SymbolCategory {
    match kind {
        SymbolKind::Class | SymbolKind::Struct | SymbolKind::Interface | SymbolKind::Enum
        | SymbolKind::TypeParameter => SymbolCategory::Type,
        SymbolKind::Function | SymbolKind::Method | SymbolKind::Constructor
        | SymbolKind::Operator => SymbolCategory::Function,
        SymbolKind::File | SymbolKind::Module | SymbolKind::Namespace | SymbolKind::Package
        | SymbolKind::Event => SymbolCategory::Container,
        _ => SymbolCategory::Value,
    }
}

/// The category of a kind.
pub fn symbol_category(kind: SymbolKind) -> (category: SymbolCategory)
    ensures
        category == category_of(kind),
{
    match kind {
        SymbolKind::Class
        | SymbolKind::Struct
        | SymbolKind::Interface
        | SymbolKind::Enum
        | SymbolKind::TypeParameter => SymbolCategory::Type,
        SymbolKind::Function
        | SymbolKind::Method
        | SymbolKind::Constructor
        | SymbolKind::Operator => SymbolCategory::Function,
        SymbolKind::File
        | SymbolKind::Module
        | SymbolKind::Namespace
        | SymbolKind::Package
        | SymbolKind::Event => SymbolCategory::Container,
        SymbolKind::Property
        | SymbolKind::Field
        | SymbolKind::Variable
        | SymbolKind::Constant
        | SymbolKind::String
        | SymbolKind::Number
        | SymbolKind::Boolean
        | SymbolKind::Array
        | SymbolKind::Object
        | SymbolKind::Key
        | SymbolKind::Null
        | SymbolKind::EnumMember => SymbolCategory::Value,
    }
}

/// The colour role of a category.
pub open spec fn category_tone(category: SymbolCategory) -> Tone {
    match category {
        SymbolCategory::Type => Tone::Info,
        SymbolCategory::Function => Tone::Accent,
        SymbolCategory::Value => Tone::Success,
        SymbolCategory::Container => Tone::Muted,
    }
}

/// The colour role of a category.
pub fn category_color(category: SymbolCategory) -> (tone: Tone)
    ensures
        tone == category_tone(category),
{
    match category {
        SymbolCategory::Type => Tone::Info,
        SymbolCategory::Function => Tone::Accent,
        SymbolCategory::Value => Tone::Success,
        SymbolCategory::Container => Tone::Muted,
    }
}

/// The letter of a kind.
pub open spec fn glyph_of(kind: SymbolKind) -> char {
    match kind {
        SymbolKind::File => 'F',
        SymbolKind::Module => 'M',
        SymbolKind::Namespace => 'N',
        SymbolKind::Package => 'P',
        SymbolKind::Class => 'C',
        SymbolKind::Method => 'm',
        SymbolKind::Property => 'p',
        SymbolKind::Field => 'd',
        SymbolKind::Constructor => 'c',
        SymbolKind::Enum => 'E',
        SymbolKind::Interface => 'I',
        SymbolKind::Function => 'f',
        SymbolKind::Variable => 'v',
        SymbolKind::Constant => 'k',
        SymbolKind::String => 's',
        SymbolKind::Number => 'n',
        SymbolKind::Boolean => 'b',
        SymbolKind::Array => 'a',
        SymbolKind::Object => 'o',
        SymbolKind::Key => 'y',
        SymbolKind::Null => '0',
        SymbolKind::EnumMember => 'e',
        SymbolKind::Struct => 'S',
        SymbolKind::Event => '!',
        SymbolKind::Operator => '+',
        SymbolKind::TypeParameter => 'T',
    }
}

/// The letter of a kind.
pub fn symbol_glyph(kind: SymbolKind) -> (glyph: &'static str)
    ensures
        glyph@ == seq![glyph_of(kind)],
{
    proof {
        reveal_strlit("F");
        reveal_strlit("M");
        reveal_strlit("N");
        reveal_strlit("P");
        reveal_strlit("C");
        reveal_strlit("m");
        reveal_strlit("p");
        reveal_strlit("d");
        reveal_strlit("c");
        reveal_strlit("E");
        reveal_strlit("I");
        reveal_strlit("f");
        reveal_strlit("v");
        reveal_strlit("k");
        reveal_strlit("s");
        reveal_strlit("n");
        reveal_strlit("b");
        reveal_strlit("a");
        reveal_strlit("o");
        reveal_strlit("y");
        reveal_strlit("0");
        reveal_strlit("e");
        reveal_strlit("S");
        reveal_strlit("!");
        reveal_strlit("+");
        reveal_strlit("T");
    }
    match kind {
        SymbolKind::File => "F",
        SymbolKind::Module => "M",
        SymbolKind::Namespace => "N",
        SymbolKind::Package => "P",
        SymbolKind::Class => "C",
        SymbolKind::Method => "m",
        SymbolKind::Property => "p",
        SymbolKind::Field => "d",
        SymbolKind::Constructor => "c",
        SymbolKind::Enum => "E",
        SymbolKind::Interface => "I",
        SymbolKind::Function => "f",
        SymbolKind::Variable => "v",
        SymbolKind::Constant => "k",
        SymbolKind::String => "s",
        SymbolKind::Number => "n",
        SymbolKind::Boolean => "b",
        SymbolKind::Array => "a",
        SymbolKind::Object => "o",
        SymbolKind::Key => "y",
        SymbolKind::Null => "0",
        SymbolKind::EnumMember => "e",
        SymbolKind::Struct => "S",
        SymbolKind::Event => "!",
        SymbolKind::Operator => "+",
        SymbolKind::TypeParameter => "T",
    }
}

/// Every kind has a letter of its own.
pub proof fn law_glyphs_distinct(a: SymbolKind, b: SymbolKind)
    requires
        glyph_of(a) == glyph_of(b),
    ensures
        a == b,
{
}

// ---------------------------------------------------------------------------
// Rows
// ---------------------------------------------------------------------------

/// One row of the outline.
#[derive(Debug, PartialEq, Eq)]
pub struct OutlineRow {
    pub name: String,
    pub kind: SymbolKind,
    pub depth: u32,
    /// The part to reveal on a jump.
    pub range: Range,
}

/// The row of a symbol.
pub open spec fn row_of(symbol: DocumentSymbolEntry) -> OutlineRow {
    OutlineRow {
        name: symbol.name,
        kind: symbol.kind,
        depth: symbol.depth,
        range: symbol.selection_range,
    }
}

/// The rows of `symbols`, in their order.
pub open spec fn outline_rows(symbols: Seq<DocumentSymbolEntry>) -> Seq<OutlineRow> {
    symbols.map_values(|symbol: DocumentSymbolEntry| row_of(symbol))
}

/// Builds one row for each symbol, in their order.
pub fn build_rows(symbols: &Vec<DocumentSymbolEntry>) -> (rows: Vec<OutlineRow>)
    ensures
        rows@ == outline_rows(symbols@),
{
    let mut rows: Vec<OutlineRow> = Vec::new();
    while rows.len() < symbols.len()
        invariant
            rows@.len() <= symbols@.len(),
            rows@ == outline_rows(symbols@).take(rows@.len() as int),
        decreases symbols@.len() - rows@.len(),
    {
        let ghost n = rows@.len() as int;
        let symbol = &symbols[rows.len()];
        let row = OutlineRow {
            name: symbol.name.clone(),
            kind: symbol.kind,
            depth: symbol.depth,
            range: symbol.selection_range,
        };
        proof {
            let all = outline_rows(symbols@);
            assert(all[n] == row);
            assert(all.take(n + 1) =~= all.take(n).push(row));
        }
        rows.push(row);
    }
    proof {
        let all = outline_rows(symbols@);
        assert(all.take(rows@.len() as int) =~= all);
    }
    rows
}

// ---------------------------------------------------------------------------
// The symbol at the cursor
// ---------------------------------------------------------------------------

/// Position `a` is not behind position `b`.
pub open spec fn not_behind(a: Position, b: Position) -> bool {
    a.line < b.line || (a.line == b.line && a.character <= b.character)
}

/// The symbol's range holds the position. That the end counts as inside is this
/// library's choice: a cursor behind a symbol's last character still names it.
pub open spec fn encloses(symbol: DocumentSymbolEntry, at: Position) -> bool {
    not_behind(symbol.range.start, at) && not_behind(at, symbol.range.end)
}

fn comes_not_behind(a: Position, b: Position) -> (holds: bool)
    ensures
        holds == not_behind(a, b),
{
    a.line < b.line || (a.line == b.line && a.character <= b.character)
}

/// The deepest of the first `n` symbols that enclose the position. Where several
/// are equally deep it is the last one, by this library's choice.
pub open spec fn innermost(symbols: Seq<DocumentSymbolEntry>, at: Position, n: nat) -> Option<nat>
    decreases n,
{
    if n == 0 {
        None
    } else {
        let rest = innermost(symbols, at, (n - 1) as nat);
        let deeper = match rest {
            Some(k) => symbols[n - 1].depth >= symbols[k as int].depth,
            None => true,
        };
        if encloses(symbols[n - 1], at) && deeper {
            Some((n - 1) as nat)
        } else {
            rest
        }
    }
}

/// The index of the innermost symbol that encloses a position.
pub fn innermost_symbol_index(
    symbols: &Vec<DocumentSymbolEntry>,
    line: u32,
    character: u32,
) -> (index: Option<usize>)
    ensures
        match (index, innermost(symbols@, (Position { line, character }), symbols@.len())) {
            (Some(i), Some(k)) => i == k,
            (None, None) => true,
            _ => false,
        },
{
    let at = Position { line, character };
    let mut best: Option<usize> = None;
    let mut i: usize = 0;
    while i < symbols.len()
        invariant
            i <= symbols@.len(),
            match (best, innermost(symbols@, at, i as nat)) {
                (Some(b), Some(k)) => b == k && b < i,
                (None, None) => true,
                _ => false,
            },
        decreases symbols@.len() - i,
    {
        let deeper: bool = match best {
            Some(b) => symbols[i].depth >= symbols[b].depth,
            None => true,
        };
        if deeper && comes_not_behind(symbols[i].range.start, at) && comes_not_behind(
            at,
            symbols[i].range.end,
        ) {
            best = Some(i);
        }
        i = i + 1;
    }
    best
}

/// The chosen symbol encloses the position, and no enclosing symbol is deeper;
/// none is chosen only where none encloses it.
pub proof fn law_innermost_is_deepest(symbols: Seq<DocumentSymbolEntry>, at: Position, n: nat)
    requires
        n <= symbols.len(),
    ensures
        match innermost(symbols, at, n) {
            Some(k) => {
                &&& k < n
                &&& encloses(symbols[k as int], at)
                &&& forall|i: int|
                    0 <= i < n && encloses(#[trigger] symbols[i], at) ==> symbols[i].depth
                        <= symbols[k as int].depth
            },
            None => forall|i: int| 0 <= i < n ==> !encloses(#[trigger] symbols[i], at),
        },
    decreases n,
{
    if n > 0 {
        law_innermost_is_deepest(symbols, at, (n - 1) as nat);
    }
}

// ---------------------------------------------------------------------------
// Panel
// ---------------------------------------------------------------------------

/// What the body of the panel shows.
#[derive(Clone, Copy, Debug, PartialEq, Eq, Structural)]
pub enum OutlineContent {
    NoFile,
    NoSymbols,
    Rows,
}

/// The text of a placeholder.
pub open spec fn outline_placeholder(content: OutlineContent) -> Option<Seq<char>> {
    match content {
        OutlineContent::NoFile => Some("No file open"@),
        OutlineContent::NoSymbols => Some("No symbols"@),
        OutlineContent::Rows => None,
    }
}

impl OutlineContent {
    /// The text of a placeholder; none where rows show.
    pub fn placeholder(self) -> (message: Option<&'static str>)
        ensures
            crate::navigation::opt_str(message) == outline_placeholder(self),
    {
        match self {
            OutlineContent::NoFile => Some("No file open"),
            OutlineContent::NoSymbols => Some("No symbols"),
            OutlineContent::Rows => None,
        }
    }
}

/// How a row is painted.
#[derive(Debug, PartialEq, Eq)]
pub struct OutlinePresentation {
    /// The left edge of the glyph, in pixels.
    pub indent: u64,
    pub glyph: &'static str,
    pub tone: Tone,
    pub name: String,
    /// The row of the symbol at the cursor.
    pub selected: bool,
}

/// The outline panel: its rows and the row of the symbol at the cursor, kept
/// until the editor changes.
pub struct OutlinePanel {
    row_cache: Vec<OutlineRow>,
    selected_row: Option<usize>,
    cache_dirty: bool,
}

/// What an [`OutlinePanel`] holds.
pub struct OutlinePanelView {
    pub rows: Seq<OutlineRow>,
    pub selected: Option<usize>,
    pub dirty: bool,
}

impl View for OutlinePanel {
    type V = OutlinePanelView;

    closed spec fn view(&self) -> OutlinePanelView {
        OutlinePanelView {
            rows: self.row_cache@,
            selected: self.selected_row,
            dirty: self.cache_dirty,
        }
    }
}

/// The row to select: that of the innermost symbol at the cursor.
pub open spec fn selected_for(
    symbols: Seq<DocumentSymbolEntry>,
    cursor: Option<Position>,
) -> Option<nat> {
    match cursor {
        Some(at) => innermost(symbols, at, symbols.len()),
        None => None,
    }
}

impl OutlinePanel {
    /// The selected row is one of the rows.
    pub open spec fn wf(&self) -> bool {
        self@.selected matches Some(row) ==> row < self@.rows.len()
    }

    /// A panel that has not looked at the editor yet.
    pub fn new() -> (panel: Self)
        ensures
            panel.wf(),
            panel@.dirty,
            panel@.rows.len() == 0,
            panel@.selected is None,
    {
        OutlinePanel { row_cache: Vec::new(), selected_row: None, cache_dirty: true }
    }

    /// The editor changed: the caches are stale.
    pub fn editor_changed(&mut self)
        requires
            old(self).wf(),
        ensures
            final(self).wf(),
            final(self)@ == (OutlinePanelView { dirty: true, ..old(self)@ }),
    {
        self.cache_dirty = true;
    }

    /// Whether the caches are stale.
    pub fn is_dirty(&self) -> (dirty: bool)
        ensures
            dirty == self@.dirty,
    {
        self.cache_dirty
    }

    /// The cached rows.
    pub fn row_cache(&self) -> (rows: &Vec<OutlineRow>)
        ensures
            rows@ == self@.rows,
    {
        &self.row_cache
    }

    /// The row of the symbol at the cursor.
    pub fn selected_row(&self) -> (row: Option<usize>)
        ensures
            row == self@.selected,
    {
        self.selected_row
    }

    /// Brings the caches up to date with the symbols of the open document and
    /// the cursor in it. Clean caches stay as they are.
    pub fn refresh_cache(
        &mut self,
        symbols: &Vec<DocumentSymbolEntry>,
        cursor: Option<Position>,
    )
        requires
            old(self).wf(),
        ensures
            final(self).wf(),
            !final(self)@.dirty,
            old(self)@.dirty ==> {
                &&& final(self)@.rows == outline_rows(symbols@)
                &&& match (final(self)@.selected, selected_for(symbols@, cursor)) {
                    (Some(i), Some(k)) => i == k,
                    (None, None) => true,
                    _ => false,
                }
            },
            !old(self)@.dirty ==> final(self)@ == old(self)@,
    {
        if !self.cache_dirty {
            return;
        }
        self.row_cache = build_rows(symbols);
        self.selected_row = match cursor {
            Some(at) => innermost_symbol_index(symbols, at.line, at.character),
            None => None,
        };
        self.cache_dirty = false;
        proof {
            if let Some(at) = cursor {
                law_innermost_is_deepest(symbols@, at, symbols@.len());
            }
        }
    }

    /// Where a click on row `ix` jumps to: nowhere without an open file or
    /// beyond the rows.
    pub fn jump_target(&self, ix: usize, open_path: Option<&str>) -> (target: Option<
        (String, Range),
    >)
        ensures
            target is Some <==> open_path is Some && ix < self@.rows.len(),
            target matches Some((path, range)) ==> path@ == open_path->0@ && range
                == self@.rows[ix as int].range,
    {
        match open_path {
            None => None,
            Some(path) => if ix < self.row_cache.len() {
                Some((path.to_owned(), self.row_cache[ix].range))
            } else {
                None
            },
        }
    }

    /// What a click on row `ix` asks for.
    pub fn click(&self, ix: usize, open_path: Option<&str>) -> (event: Option<OutlinePanelEvent>)
        ensures
            event is Some <==> open_path is Some && ix < self@.rows.len(),
            event matches Some(OutlinePanelEvent::OpenLocation { path, range }) ==> path@
                == open_path->0@ && range == self@.rows[ix as int].range,
    {
        match self.jump_target(ix, open_path) {
            Some((path, range)) => Some(OutlinePanelEvent::OpenLocation { path, range }),
            None => None,
        }
    }

    /// What the body of the panel shows.
    pub fn content(&self, file_open: bool) -> (content: OutlineContent)
        ensures
            content == if !file_open {
                OutlineContent::NoFile
            } else if self@.rows.len() == 0 {
                OutlineContent::NoSymbols
            } else {
                OutlineContent::Rows
            },
    {
        if !file_open {
            OutlineContent::NoFile
        } else if self.row_cache.len() == 0 {
            OutlineContent::NoSymbols
        } else {
            OutlineContent::Rows
        }
    }

    /// How row `ix` is painted.
    pub fn present_row(&self, ix: usize) -> (painted: OutlinePresentation)
        requires
            ix < self@.rows.len(),
        ensures
            painted.indent == self@.rows[ix as int].depth * OUTLINE_INDENT_PER_LEVEL,
            painted.glyph@ == seq![glyph_of(self@.rows[ix as int].kind)],
            painted.tone == category_tone(category_of(self@.rows[ix as int].kind)),
            painted.name@ == self@.rows[ix as int].name@,
            painted.selected == (self@.selected == Some(ix)),
    {
        let row = &self.row_cache[ix];
        let depth: u64 = row.depth as u64;
        OutlinePresentation {
            indent: depth * OUTLINE_INDENT_PER_LEVEL,
            glyph: symbol_glyph(row.kind),
            tone: category_color(symbol_category(row.kind)),
            name: row.name.clone(),
            selected: match self.selected_row {
                Some(selected) => selected == ix,
                None => false,
            },
        }
    }
}

// ---------------------------------------------------------------------------
// Laws
// ---------------------------------------------------------------------------

/// Every symbol of the document has one row at its place, with its own name,
/// kind and depth, and the part that is jumped to.
pub proof fn law_rows_show_their_symbols(
    symbols: Vec<DocumentSymbolEntry>,
    rows: Vec<OutlineRow>,
    i: int,
)
    requires
        call_ensures(build_rows, (&symbols,), rows),
        0 <= i < symbols@.len(),
    ensures
        rows@.len() == symbols@.len(),
        rows@[i].name == symbols@[i].name,
        rows@[i].kind == symbols@[i].kind,
        rows@[i].depth == symbols@[i].depth,
        rows@[i].range == symbols@[i].selection_range,
{
}

/// Documents whose symbols differ in what a row shows have different outlines.
pub proof fn law_outline_tells_documents_apart(
    one: Vec<DocumentSymbolEntry>,
    other: Vec<DocumentSymbolEntry>,
    left: Vec<OutlineRow>,
    right: Vec<OutlineRow>,
    i: int,
)
    requires
        call_ensures(build_rows, (&one,), left),
        call_ensures(build_rows, (&other,), right),
        left@ == right@,
        0 <= i < one@.len(),
    ensures
        one@.len() == other@.len(),
        one@[i].name == other@[i].name,
        one@[i].kind == other@[i].kind,
        one@[i].depth == other@[i].depth,
        one@[i].selection_range == other@[i].selection_range,
{
    law_rows_show_their_symbols(one, left, i);
    assert(right@.len() == other@.len());
    law_rows_show_their_symbols(other, right, i);
}

/// A refreshed panel paints each symbol with the letter of its own kind, its
/// own name, and an indent that grows by the same step with every level.
pub proof fn law_panel_paints_the_symbols(
    panel: &mut OutlinePanel,
    symbols: Vec<DocumentSymbolEntry>,
    cursor: Option<Position>,
    ix: usize,
    painted: OutlinePresentation,
    letter: &'static str,
)
    requires
        old(panel)@.dirty,
        call_ensures(OutlinePanel::refresh_cache, (panel, &symbols, cursor), ()),
        call_ensures(OutlinePanel::present_row, (final(panel), ix), painted),
        ix < symbols@.len(),
        call_ensures(symbol_glyph, (symbols@[ix as int].kind,), letter),
    ensures
        final(panel)@.rows.len() == symbols@.len(),
        painted.glyph@ == letter@,
        painted.name@ == symbols@[ix as int].name@,
        painted.indent == symbols@[ix as int].depth * OUTLINE_INDENT_PER_LEVEL,
{
}

/// The painted row is marked exactly where it is the deepest symbol around the
/// cursor, the last one where several are equally deep.
pub proof fn law_selection_follows_the_cursor(
    panel: &mut OutlinePanel,
    symbols: Vec<DocumentSymbolEntry>,
    cursor: Option<Position>,
    ix: usize,
    painted: OutlinePresentation,
)
    requires
        old(panel)@.dirty,
        call_ensures(OutlinePanel::refresh_cache, (panel, &symbols, cursor), ()),
        call_ensures(OutlinePanel::present_row, (final(panel), ix), painted),
        ix < symbols@.len(),
    ensures
        painted.selected <==> (cursor matches Some(at) && encloses(symbols@[ix as int], at) && (
        forall|i: int|
            0 <= i < symbols@.len() && encloses(#[trigger] symbols@[i], at) ==> symbols@[i].depth
                < symbols@[ix as int].depth || (symbols@[i].depth == symbols@[ix as int].depth && i
                <= ix))),
{
    if let Some(at) = cursor {
        lemma_innermost_is_last(symbols@, at, symbols@.len());
        law_innermost_is_deepest(symbols@, at, symbols@.len());
    }
}

proof fn lemma_innermost_is_last(symbols: Seq<DocumentSymbolEntry>, at: Position, n: nat)
    requires
        n <= symbols.len(),
    ensures
        innermost(symbols, at, n) matches Some(k) ==> k < n && forall|i: int|
            0 <= i < n && encloses(#[trigger] symbols[i], at) ==> symbols[i].depth
                < symbols[k as int].depth || (symbols[i].depth == symbols[k as int].depth && i
                <= k),
    decreases n,
{
    if n > 0 {
        lemma_innermost_is_last(symbols, at, (n - 1) as nat);
        law_innermost_is_deepest(symbols, at, (n - 1) as nat);
    }
}

/// A range holds the positions from its start to its end: both of them, nothing
/// before the start, and nothing behind the end.
pub proof fn law_range_holds_what_lies_between(symbol: DocumentSymbolEntry, at: Position)
    ensures
        at == symbol.range.start && not_behind(at, symbol.range.end) ==> encloses(symbol, at),
        at == symbol.range.end && not_behind(symbol.range.start, at) ==> encloses(symbol, at),
        at.line < symbol.range.start.line || at.line > symbol.range.end.line ==> !encloses(
            symbol,
            at,
        ),
        symbol.range.start.line < at.line < symbol.range.end.line ==> encloses(symbol, at),
        at.line == symbol.range.start.line && at.character < symbol.range.start.character
            ==> !encloses(symbol, at),
        at.line == symbol.range.end.line && at.character > symbol.range.end.character ==> !encloses(
            symbol,
            at,
        ),
        symbol.range.start.line == at.line == symbol.range.end.line && symbol.range.start.character
            <= at.character <= symbol.range.end.character ==> encloses(symbol, at),
{
}

/// The index that is found is that of the deepest symbol around the position,
/// and none is found only where none lies around it.
pub proof fn law_innermost_symbol(
    symbols: Vec<DocumentSymbolEntry>,
    at: Position,
    index: Option<usize>,
)
    requires
        call_ensures(innermost_symbol_index, (&symbols, at.line, at.character), index),
    ensures
        match index {
            Some(k) => {
                &&& k < symbols@.len()
                &&& encloses(symbols@[k as int], at)
                &&& forall|i: int|
                    0 <= i < symbols@.len() && encloses(#[trigger] symbols@[i], at)
                        ==> symbols@[i].depth < symbols@[k as int].depth || (symbols@[i].depth
                        == symbols@[k as int].depth && i <= k)
            },
            None => forall|i: int|
                0 <= i < symbols@.len() ==> !encloses(#[trigger] symbols@[i], at),
        },
{
    let place = Position { line: at.line, character: at.character };
    assert(place == at);
    law_innermost_is_deepest(symbols@, at, symbols@.len());
    lemma_innermost_is_last(symbols@, at, symbols@.len());
}

/// A click on a symbol jumps to that symbol in the open file; without an open
/// file, or beyond the rows, it jumps nowhere.
pub proof fn law_click_jumps_to_the_symbol(
    panel: &mut OutlinePanel,
    symbols: Vec<DocumentSymbolEntry>,
    cursor: Option<Position>,
    ix: usize,
    open_path: Option<&str>,
    event: Option<OutlinePanelEvent>,
    target: Option<(String, Range)>,
)
    requires
        old(panel)@.dirty,
        call_ensures(OutlinePanel::refresh_cache, (panel, &symbols, cursor), ()),
        call_ensures(OutlinePanel::click, (final(panel), ix, open_path), event),
        call_ensures(OutlinePanel::jump_target, (final(panel), ix, open_path), target),
    ensures
        event is Some <==> open_path is Some && ix < symbols@.len(),
        target is Some <==> event is Some,
        event matches Some(OutlinePanelEvent::OpenLocation { path, range }) ==> path@
            == open_path->0@ && range == symbols@[ix as int].selection_range,
        target matches Some((path, range)) ==> path@ == open_path->0@ && range
            == symbols@[ix as int].selection_range,
{
}

/// The panel shows rows exactly where a file is open and has symbols, and says
/// otherwise which of the two is missing.
pub proof fn law_panel_says_what_is_missing(
    panel: &mut OutlinePanel,
    symbols: Vec<DocumentSymbolEntry>,
    cursor: Option<Position>,
    file_open: bool,
    content: OutlineContent,
    message: Option<&'static str>,
)
    requires
        old(panel)@.dirty,
        call_ensures(OutlinePanel::refresh_cache, (panel, &symbols, cursor), ()),
        call_ensures(OutlinePanel::content, (final(panel), file_open), content),
        call_ensures(OutlineContent::placeholder, (content,), message),
    ensures
        message is None <==> file_open && symbols@.len() > 0,
        !file_open ==> (message matches Some(line) && line@ == "No file open"@),
        file_open && symbols@.len() == 0 ==> (message matches Some(line) && line@
            == "No symbols"@),
        content is Rows <==> message is None,
{
}

/// A kind is coloured by what it is: types, functions, values and containers
/// have a colour each.
pub proof fn law_kinds_are_coloured(
    kind: SymbolKind,
    category: SymbolCategory,
    tone: Tone,
)
    requires
        call_ensures(symbol_category, (kind,), category),
        call_ensures(category_color, (category,), tone),
    ensures
        tone == Tone::Info <==> kind is Class || kind is Struct || kind is Interface || kind is Enum
            || kind is TypeParameter,
        tone == Tone::Accent <==> kind is Function || kind is Method || kind is Constructor || kind
            is Operator,
        tone == Tone::Muted <==> kind is File || kind is Module || kind is Namespace || kind
            is Package || kind is Event,
        tone == Tone::Info || tone == Tone::Accent || tone == Tone::Muted || tone == Tone::Success,
        category is Type <==> tone == Tone::Info,
        category is Function <==> tone == Tone::Accent,
        category is Container <==> tone == Tone::Muted,
        category is Value <==> tone == Tone::Success,
{
}

/// A refresh of clean caches keeps them, and after any refresh they are clean.
pub proof fn law_clean_outline_is_kept(
    panel: &mut OutlinePanel,
    symbols: Vec<DocumentSymbolEntry>,
    cursor: Option<Position>,
)
    requires
        call_ensures(OutlinePanel::refresh_cache, (panel, &symbols, cursor), ()),
    ensures
        !final(panel)@.dirty,
        !old(panel)@.dirty ==> final(panel)@.rows == old(panel)@.rows && final(panel)@.selected
            == old(panel)@.selected,
{
}

/// The letters of the kinds.
pub proof fn law_glyph_letters(kind: SymbolKind, glyph: &'static str)
    requires
        call_ensures(symbol_glyph, (kind,), glyph),
    ensures
        glyph@.len() == 1,
        kind is File <==> glyph@[0] == 'F',
        kind is Module <==> glyph@[0] == 'M',
        kind is Namespace <==> glyph@[0] == 'N',
        kind is Package <==> glyph@[0] == 'P',
        kind is Class <==> glyph@[0] == 'C',
        kind is Method <==> glyph@[0] == 'm',
        kind is Property <==> glyph@[0] == 'p',
        kind is Field <==> glyph@[0] == 'd',
        kind is Constructor <==> glyph@[0] == 'c',
        kind is Enum <==> glyph@[0] == 'E',
        kind is Interface <==> glyph@[0] == 'I',
        kind is Function <==> glyph@[0] == 'f',
        kind is Variable <==> glyph@[0] == 'v',
        kind is Constant <==> glyph@[0] == 'k',
        kind is String <==> glyph@[0] == 's',
        kind is Number <==> glyph@[0] == 'n',
        kind is Boolean <==> glyph@[0] == 'b',
        kind is Array <==> glyph@[0] == 'a',
        kind is Object <==> glyph@[0] == 'o',
        kind is Key <==> glyph@[0] == 'y',
        kind is Null <==> glyph@[0] == '0',
        kind is EnumMember <==> glyph@[0] == 'e',
        kind is Struct <==> glyph@[0] == 'S',
        kind is Event <==> glyph@[0] == '!',
        kind is Operator <==> glyph@[0] == '+',
        kind is TypeParameter <==> glyph@[0] == 'T',
{
}

/// A change in the editor makes the caches stale and nothing else, and the panel
/// tells its caches as they are.
pub proof fn law_edit_makes_the_outline_stale(
    panel: &mut OutlinePanel,
    dirty: bool,
    list: &Vec<OutlineRow>,
    row: Option<usize>,
)
    requires
        call_ensures(OutlinePanel::editor_changed, (panel,), ()),
        call_ensures(OutlinePanel::is_dirty, (final(panel),), dirty),
        call_ensures(OutlinePanel::row_cache, (final(panel),), list),
        call_ensures(OutlinePanel::selected_row, (final(panel),), row),
    ensures
        dirty,
        list@ == old(panel)@.rows,
        row == old(panel)@.selected,
{
}

/// A row is painted in the colour of its symbol's kind, 14 pixels further in for
/// each level, and marked where it is selected.
pub proof fn law_rows_are_painted_by_kind_and_depth(
    panel: OutlinePanel,
    ix: usize,
    painted: OutlinePresentation,
    category: SymbolCategory,
    tone: Tone,
    letter: &'static str,
)
    requires
        ix < panel@.rows.len(),
        call_ensures(OutlinePanel::present_row, (&panel, ix), painted),
        call_ensures(symbol_category, (panel@.rows[ix as int].kind,), category),
        call_ensures(category_color, (category,), tone),
        call_ensures(symbol_glyph, (panel@.rows[ix as int].kind,), letter),
    ensures
        painted.indent == 14 * panel@.rows[ix as int].depth,
        painted.tone == tone,
        painted.glyph@ == letter@,
        painted.name@ == panel@.rows[ix as int].name@,
        painted.selected <==> panel@.selected == Some(ix),
{
}

} // verus!
