//! The terminal's seam: pane and window ids, the layout's way into the render
//! layer, and the requests that the render layer's events become.

use vstd::prelude::*;

use crate::messages::{
    CaptureRequest, ClientMessage, PaneInput, PaneLayout, PaneShell, SessionSnapshot,
    SessionSwitchRequest, TermSize, TmuxPaneState, TmuxSnapshot, TmuxWindowState, WindowLayout,
};
use crate::ordered::KeyedVec;
use crate::text;

verus! {

// ---------------------------------------------------------------------------
// Ids
// ---------------------------------------------------------------------------

/// tmux's form of a pane id.
pub open spec fn pane_name(pane_id: u32) -> Seq<char> {
    seq!['%'] + text::decimal_text(pane_id as nat)
}

/// tmux's form of a window id.
pub open spec fn window_name(window_id: u32) -> Seq<char> {
    seq!['@'] + text::decimal_text(window_id as nat)
}

/// tmux's form of a pane id.
pub fn pane_tag(pane_id: u32) -> (tag: String)
    ensures
        tag@ == pane_name(pane_id),
{
    let mut tag = String::new();
    tag.push('%');
    tag.append(text::decimal(pane_id as u64).as_str());
    assert(tag@ =~= pane_name(pane_id));
    tag
}

/// tmux's form of a window id.
pub fn window_tag(window_id: u32) -> (tag: String)
    ensures
        tag@ == window_name(window_id),
{
    let mut tag = String::new();
    tag.push('@');
    tag.append(text::decimal(window_id as u64).as_str());
    assert(tag@ =~= window_name(window_id));
    tag
}

/// The pane that a tag names: what follows the percent sign, read as a number.
pub open spec fn pane_in(tag: Seq<char>) -> Option<u32> {
    if tag.len() > 0 && tag[0] == '%' {
        text::number_in(tag.skip(1))
    } else {
        None
    }
}

/// Reads a pane id out of tmux's form; none for anything else.
pub fn parse_pane_id(id: &str) -> (pane: Option<u32>)
    ensures
        pane == pane_in(id@),
{
    let length: usize = id.unicode_len();
    if length == 0 || id.get_char(0) != '%' {
        return None;
    }
    let digits = id.substring_char(1, length);
    assert(digits@ =~= id@.skip(1));
    text::parse_number(digits)
}

/// The id that a pane's tag is read back as is the one it was made from.
pub proof fn law_pane_tag_reads_back(pane_id: u32)
    ensures
        pane_in(pane_name(pane_id)) == Some(pane_id),
{
    let tag = pane_name(pane_id);
    assert(tag.skip(1) =~= text::decimal_text(pane_id as nat));
    text::lemma_number_in_decimal(pane_id);
}

/// Two panes never share a tag.
pub proof fn law_pane_tags_distinct(a: u32, b: u32)
    requires
        pane_name(a) == pane_name(b),
    ensures
        a == b,
{
    law_pane_tag_reads_back(a);
    law_pane_tag_reads_back(b);
}

// ---------------------------------------------------------------------------
// Typed input
// ---------------------------------------------------------------------------

/// The text that bytes decode to, with a replacement character for what is not
/// UTF-8.
pub uninterp spec fn lossy_text(bytes: Seq<u8>) -> Seq<char>;

/// `String::from_utf8_lossy`: the text depends on the bytes alone, and bytes
/// that are UTF-8 decode to the text that they encode.
#[verifier::external_body]
fn decode_lossy(bytes: &[u8]) -> (decoded: String)
    ensures
        decoded@ == lossy_text(bytes@),
        vstd::utf8::valid_utf8(bytes@) ==> decoded@ == vstd::utf8::decode_utf8(bytes@),
{
    String::from_utf8_lossy(bytes).into_owned()
}

/// Bytes that are the UTF-8 form of a text have been decoded to that very text.
pub open spec fn text_is_kept(bytes: Seq<u8>, decoded: Seq<char>) -> bool {
    forall|typed: Seq<char>|
        bytes == #[trigger] vstd::utf8::encode_utf8(typed) ==> decoded == typed
}

/// Typed bytes as text. Nothing of UTF-8 input is lost.
pub fn bytes_to_string(bytes: Vec<u8>) -> (decoded: String)
    ensures
        decoded@ == lossy_text(bytes@),
        text_is_kept(bytes@, decoded@),
{
    let decoded = decode_lossy(bytes.as_slice());
    proof {
        assert forall|typed: Seq<char>|
            bytes@ == #[trigger] vstd::utf8::encode_utf8(typed) implies decoded@ == typed by {
            vstd::utf8::encode_utf8_valid_utf8(typed);
            vstd::utf8::encode_utf8_decode_utf8(typed);
        }
    }
    decoded
}

// ---------------------------------------------------------------------------
// Requests
// ---------------------------------------------------------------------------

/// The low sixteen bits of a number of cells.
pub open spec fn low_word(cells: usize) -> u16 {
    (cells % 0x1_0000) as u16
}

pub(crate) fn cells(n: usize) -> (word: u16)
    ensures
        word == low_word(n),
{
    assert(n as u16 == (n % 0x1_0000) as u16) by (bit_vector);
    #[verifier::truncate]
    (n as u16)
}

/// The request that sizes the client's grid. The pane plays no part in it.
pub open spec fn is_resize(message: ClientMessage, size: TermSize) -> bool {
    message == ClientMessage::ResizePane {
        pane_id: 0,
        cols: low_word(size.cols),
        rows: low_word(size.rows),
    }
}

/// The request that sizes the client's grid.
pub fn resize_message(size: TermSize) -> (message: ClientMessage)
    ensures
        is_resize(message, size),
{
    ClientMessage::ResizePane { pane_id: 0, cols: cells(size.cols), rows: cells(size.rows) }
}

/// The request that typed input becomes; none where the pane's tag is not one.
pub fn input_message(input: PaneInput) -> (message: Option<ClientMessage>)
    ensures
        match (message, pane_in(input.pane_id@)) {
            (Some(ClientMessage::Input { pane_id, data }), Some(pane)) => {
                &&& pane_id == pane
                &&& data@ == lossy_text(input.bytes@)
                &&& text_is_kept(input.bytes@, data@)
            },
            (None, None) => true,
            _ => false,
        },
{
    match parse_pane_id(input.pane_id.as_str()) {
        Some(pane_id) => Some(
            ClientMessage::Input { pane_id, data: bytes_to_string(input.bytes) },
        ),
        None => None,
    }
}

/// The request that a capture becomes; none where the pane's tag is not one.
pub fn capture_message(request: CaptureRequest) -> (message: Option<ClientMessage>)
    ensures
        message == match pane_in(request.pane_id@) {
            Some(pane_id) => Some(
                ClientMessage::CapturePane {
                    pane_id,
                    start: request.start_row,
                    end: request.end_row,
                    join: request.join_wraps,
                },
            ),
            None => None,
        },
{
    match parse_pane_id(request.pane_id.as_str()) {
        Some(pane_id) => Some(
            ClientMessage::CapturePane {
                pane_id,
                start: request.start_row,
                end: request.end_row,
                join: request.join_wraps,
            },
        ),
        None => None,
    }
}

/// The request that a tmux command becomes.
pub fn command_message(cmd: String) -> (message: ClientMessage)
    ensures
        message == (ClientMessage::TmuxCommand { cmd }),
{
    ClientMessage::TmuxCommand { cmd }
}

/// What follows a tmux command: the key tables are asked for again where the
/// command was sent and may have changed them.
pub fn after_command(sent: bool, changes_bindings: bool) -> (message: Option<ClientMessage>)
    ensures
        message == if sent && changes_bindings {
            Some(ClientMessage::QueryKeyTable)
        } else {
            None
        },
{
    if sent && changes_bindings {
        Some(ClientMessage::QueryKeyTable)
    } else {
        None
    }
}

/// The request that a click on a file becomes.
pub fn open_file_message(path: String) -> (message: ClientMessage)
    ensures
        message == (ClientMessage::OpenFile { path }),
{
    ClientMessage::OpenFile { path }
}

/// The request that a click on a changed file becomes.
pub fn request_diff_message(path: String) -> (message: ClientMessage)
    ensures
        message == (ClientMessage::RequestDiff { path }),
{
    ClientMessage::RequestDiff { path }
}

/// The requests that open a session: the attach, then the grid where it is
/// known. The order matters, for the attach starts on a grid of its own.
pub fn attach_messages(session: &str, viewport: Option<TermSize>) -> (messages: Vec<ClientMessage>)
    ensures
        messages@.len() == if viewport is Some {
            2int
        } else {
            1int
        },
        messages@[0] matches ClientMessage::Attach { session: name } && name@ == session@,
        viewport matches Some(size) ==> is_resize(messages@[1], size),
{
    let mut messages: Vec<ClientMessage> = Vec::new();
    messages.push(ClientMessage::Attach { session: session.to_owned() });
    if let Some(size) = viewport {
        messages.push(resize_message(size));
    }
    messages
}

/// The request that a switch to another session becomes.
pub fn switch_message(request: &SessionSwitchRequest) -> (message: ClientMessage)
    ensures
        message matches ClientMessage::Attach { session } && session@ == request.session@,
{
    ClientMessage::Attach { session: request.session.clone() }
}

// ---------------------------------------------------------------------------
// What outlives an attempt
// ---------------------------------------------------------------------------

/// The session that the client is on and the render layer's last grid. They
/// outlive every connection attempt, so that a reconnect comes back to them.
#[derive(Debug, PartialEq, Eq)]
pub struct EngineWatches {
    pub session: String,
    pub viewport: Option<TermSize>,
}

impl EngineWatches {
    /// On `session`, with no grid yet.
    pub fn new(session: String) -> (watches: Self)
        ensures
            watches.session == session,
            watches.viewport is None,
    {
        EngineWatches { session, viewport: None }
    }

    /// The grid changed: it is remembered whether or not the request can be
    /// sent.
    pub fn resized(&mut self, size: TermSize) -> (message: ClientMessage)
        ensures
            *final(self) == (EngineWatches { viewport: Some(size), ..*old(self) }),
            is_resize(message, size),
    {
        self.viewport = Some(size);
        resize_message(size)
    }

    /// The attach that a switch asks for has been tried. Where it was sent, the
    /// new session is remembered and its grid is asserted; where it was not,
    /// the switch never happened.
    pub fn switched(&mut self, request: SessionSwitchRequest, sent: bool) -> (message: Option<ClientMessage>)
        ensures
            final(self).viewport == old(self).viewport,
            sent ==> {
                &&& final(self).session == request.session
                &&& message is Some
                &&& is_resize(message->0, request.size)
            },
            !sent ==> {
                &&& *final(self) == *old(self)
                &&& message is None
            },
    {
        if sent {
            self.session = request.session;
            Some(resize_message(request.size))
        } else {
            None
        }
    }

    /// The requests that open the session again.
    pub fn reattach(&self) -> (messages: Vec<ClientMessage>)
        ensures
            messages@.len() == if self.viewport is Some {
                2int
            } else {
                1int
            },
            messages@[0] matches ClientMessage::Attach { session } && session@ == self.session@,
            self.viewport matches Some(size) ==> is_resize(messages@[1], size),
    {
        attach_messages(self.session.as_str(), self.viewport)
    }
}

// ---------------------------------------------------------------------------
// Layout
// ---------------------------------------------------------------------------

/// The signed number that shares its bits with `n`.
pub open spec fn as_signed(n: u32) -> int {
    if n < 0x8000_0000 {
        n as int
    } else {
        n - 0x1_0000_0000
    }
}

fn signed(n: u32) -> (index: i32)
    ensures
        index == as_signed(n),
{
    assert(n < 0x8000_0000 ==> n as i32 == n) by (bit_vector);
    assert(n >= 0x8000_0000 ==> n as i32 == n - 0x1_0000_0000) by (bit_vector);
    #[verifier::truncate]
    (n as i32)
}

/// `state` shows `pane` in the window tagged `window`.
pub open spec fn shows_pane(state: TmuxPaneState, pane: PaneLayout, window: Seq<char>) -> bool {
    &&& state.id@ == pane_name(pane.pane_id)
    &&& state.window_id@ == window
    &&& state.session_id@.len() == 0
    &&& state.is_active == pane.active
    &&& state.left == pane.left
    &&& state.top == pane.top
    &&& state.width == pane.width
    &&& state.height == pane.height
    &&& state.cursor_x == 0
    &&& state.cursor_y == 0
    &&& state.current_path@ == pane.current_path@
    &&& state.current_command@ == pane.current_command@
}

/// `states` shows `panes`, one for each and in their order.
pub open spec fn shows_panes(
    states: Seq<TmuxPaneState>,
    panes: Seq<PaneLayout>,
    window: Seq<char>,
) -> bool {
    &&& states.len() == panes.len()
    &&& forall|i: int| 0 <= i < panes.len() ==> shows_pane(#[trigger] states[i], panes[i], window)
}

/// The tag of the first active pane of the first `n`.
pub open spec fn first_active(panes: Seq<PaneLayout>, n: nat) -> Option<Seq<char>>
    decreases n,
{
    if n == 0 {
        None
    } else {
        match first_active(panes, (n - 1) as nat) {
            Some(tag) => Some(tag),
            None => if panes[n - 1].active {
                Some(pane_name(panes[n - 1].pane_id))
            } else {
                None
            },
        }
    }
}

/// `state` shows `window`.
pub open spec fn shows_window(state: TmuxWindowState, window: WindowLayout) -> bool {
    &&& state.id@ == window_name(window.window_id)
    &&& state.index == as_signed(window.window_index)
    &&& state.name@ == window.name@
    &&& state.layout@.len() == 0
    &&& state.is_active == window.active
    &&& !state.automatic_rename
    &&& text::opt_view(state.active_pane_id) == first_active(
        window.panes@,
        window.panes@.len(),
    )
    &&& shows_panes(state.panes@, window.panes@, window_name(window.window_id))
}

/// `states` shows `windows`, one for each and in their order.
pub open spec fn shows_windows(states: Seq<TmuxWindowState>, windows: Seq<WindowLayout>) -> bool {
    &&& states.len() == windows.len()
    &&& forall|i: int| 0 <= i < windows.len() ==> shows_window(#[trigger] states[i], windows[i])
}

/// By tag, whether each of the first `n` panes runs a shell, added to `map`.
pub open spec fn shells_of_panes(
    map: Map<Seq<char>, bool>,
    panes: Seq<PaneLayout>,
    n: nat,
) -> Map<Seq<char>, bool>
    decreases n,
{
    if n == 0 {
        map
    } else {
        shells_of_panes(map, panes, (n - 1) as nat).insert(
            pane_name(panes[n - 1].pane_id),
            panes[n - 1].is_shell,
        )
    }
}

/// By tag, whether each pane of the first `n` windows runs a shell.
pub open spec fn shells_of_windows(windows: Seq<WindowLayout>, n: nat) -> Map<Seq<char>, bool>
    decreases n,
{
    if n == 0 {
        Map::empty()
    } else {
        shells_of_panes(
            shells_of_windows(windows, (n - 1) as nat),
            windows[n - 1].panes@,
            windows[n - 1].panes@.len(),
        )
    }
}

/// What a table of panes says, by tag.
pub open spec fn shell_flags(table: Map<Seq<char>, PaneShell>) -> Map<Seq<char>, bool> {
    Map::new(|tag: Seq<char>| table.dom().contains(tag), |tag: Seq<char>| table[tag].is_shell)
}

fn note_shells(table: &mut KeyedVec<PaneShell>, panes: &Vec<PaneLayout>)
    requires
        old(table).wf(),
    ensures
        final(table).wf(),
        shell_flags(final(table)@) == shells_of_panes(
            shell_flags(old(table)@),
            panes@,
            panes@.len(),
        ),
{
    let ghost start = shell_flags(table@);
    let mut i: usize = 0;
    while i < panes.len()
        invariant
            i <= panes@.len(),
            table.wf(),
            shell_flags(table@) == shells_of_panes(start, panes@, i as nat),
        decreases panes@.len() - i,
    {
        let ghost before = table@;
        let pane = &panes[i];
        let entry = PaneShell { pane_id: pane_tag(pane.pane_id), is_shell: pane.is_shell };
        let ghost tag = pane_name(panes@[i as int].pane_id);
        table.upsert(entry);
        proof {
            assert(shell_flags(table@) =~= shell_flags(before).insert(
                tag,
                panes@[i as int].is_shell,
            ));
        }
        i = i + 1;
    }
}

fn pane_state(pane: &PaneLayout, window: &str) -> (state: TmuxPaneState)
    ensures
        shows_pane(state, *pane, window@),
{
    proof {
        reveal_strlit("");
    }
    TmuxPaneState {
        id: pane_tag(pane.pane_id),
        window_id: window.to_owned(),
        session_id: "".to_owned(),
        is_active: pane.active,
        left: pane.left,
        top: pane.top,
        width: pane.width,
        height: pane.height,
        cursor_x: 0,
        cursor_y: 0,
        current_path: pane.current_path.clone(),
        current_command: pane.current_command.clone(),
    }
}

fn window_state(window: &WindowLayout) -> (state: TmuxWindowState)
    ensures
        shows_window(state, *window),
{
    let tag = window_tag(window.window_id);
    let mut panes: Vec<TmuxPaneState> = Vec::new();
    let mut active: Option<String> = None;
    while panes.len() < window.panes.len()
        invariant
            tag@ == window_name(window.window_id),
            panes@.len() <= window.panes@.len(),
            forall|i: int|
                0 <= i < panes@.len() ==> shows_pane(
                    #[trigger] panes@[i],
                    window.panes@[i],
                    window_name(window.window_id),
                ),
            text::opt_view(active) == first_active(window.panes@, panes@.len()),
        decreases window.panes@.len() - panes@.len(),
    {
        let pane = &window.panes[panes.len()];
        if active.is_none() && pane.active {
            active = Some(pane_tag(pane.pane_id));
        }
        panes.push(pane_state(pane, tag.as_str()));
    }
    proof {
        reveal_strlit("");
    }
    TmuxWindowState {
        id: tag,
        index: signed(window.window_index),
        name: window.name.clone(),
        layout: "".to_owned(),
        is_active: window.active,
        automatic_rename: false,
        active_pane_id: active,
        panes,
    }
}

/// The render layer's snapshot of a layout. A whole layout and an update of one
/// give the same snapshot.
pub fn layout_to_snapshot(session: String, windows: Vec<WindowLayout>) -> (shown: SessionSnapshot)
    ensures
        shown.snapshot.session_name == session,
        shown.snapshot.session_id is None,
        shows_windows(shown.snapshot.windows@, windows@),
        shown.pane_is_shell.wf(),
        shell_flags(shown.pane_is_shell@) == shells_of_windows(windows@, windows@.len()),
{
    let mut states: Vec<TmuxWindowState> = Vec::new();
    let mut pane_is_shell: KeyedVec<PaneShell> = KeyedVec::new();
    assert(shell_flags(pane_is_shell@) =~= Map::empty());
    while states.len() < windows.len()
        invariant
            states@.len() <= windows@.len(),
            forall|i: int|
                0 <= i < states@.len() ==> shows_window(#[trigger] states@[i], windows@[i]),
            pane_is_shell.wf(),
            shell_flags(pane_is_shell@) == shells_of_windows(windows@, states@.len()),
        decreases windows@.len() - states@.len(),
    {
        let window = &windows[states.len()];
        note_shells(&mut pane_is_shell, &window.panes);
        states.push(window_state(window));
    }
    SessionSnapshot {
        snapshot: TmuxSnapshot { session_name: session, session_id: None, windows: states },
        pane_is_shell,
    }
}

impl SessionSnapshot {
    /// Whether a pane runs a shell; none for a pane that the snapshot lacks.
    pub fn is_shell(&self, tag: &str) -> (shell: Option<bool>)
        requires
            self.pane_is_shell.wf(),
        ensures
            shell == if shell_flags(self.pane_is_shell@).dom().contains(tag@) {
                Some(shell_flags(self.pane_is_shell@)[tag@])
            } else {
                None
            },
    {
        match self.pane_is_shell.get(tag) {
            Some(entry) => Some(entry.is_shell),
            None => None,
        }
    }
}

// ---------------------------------------------------------------------------
// Laws of the layout
// ---------------------------------------------------------------------------

/// A window's number is tmux's own, whatever the window's place in the list.
pub proof fn law_window_index_is_tmux_own(
    states: Seq<TmuxWindowState>,
    windows: Seq<WindowLayout>,
    i: int,
)
    requires
        shows_windows(states, windows),
        0 <= i < windows.len(),
        windows[i].window_index < 0x8000_0000,
    ensures
        states[i].index == windows[i].window_index,
{
    assert(shows_window(states[i], windows[i]));
}

/// Pane `j` of window `v` is listed behind pane `i` of window `w`.
pub open spec fn listed_behind(v: int, j: int, w: int, i: int) -> bool {
    v > w || (v == w && j > i)
}

/// No pane listed behind pane `i` of window `w` has its id.
pub open spec fn is_last_of_its_id(windows: Seq<WindowLayout>, w: int, i: int) -> bool {
    forall|v: int, j: int|
        0 <= v < windows.len() && 0 <= j < windows[v].panes@.len() && listed_behind(v, j, w, i)
            ==> (#[trigger] windows[v].panes@[j]).pane_id != windows[w].panes@[i].pane_id
}

proof fn lemma_other_flags_stay(
    map: Map<Seq<char>, bool>,
    panes: Seq<PaneLayout>,
    n: nat,
    pane_id: u32,
)
    requires
        n <= panes.len(),
        map.dom().contains(pane_name(pane_id)),
        forall|j: int| 0 <= j < n ==> (#[trigger] panes[j]).pane_id != pane_id,
    ensures
        shells_of_panes(map, panes, n).dom().contains(pane_name(pane_id)),
        shells_of_panes(map, panes, n)[pane_name(pane_id)] == map[pane_name(pane_id)],
    decreases n,
{
    if n > 0 {
        lemma_other_flags_stay(map, panes, (n - 1) as nat, pane_id);
        assert(panes[n - 1].pane_id != pane_id);
        if pane_name(panes[n - 1].pane_id) == pane_name(pane_id) {
            law_pane_tags_distinct(panes[n - 1].pane_id, pane_id);
        }
    }
}

proof fn lemma_pane_is_flagged(map: Map<Seq<char>, bool>, panes: Seq<PaneLayout>, n: nat, i: int)
    requires
        0 <= i < n <= panes.len(),
        forall|j: int| i < j < n ==> (#[trigger] panes[j]).pane_id != panes[i].pane_id,
    ensures
        shells_of_panes(map, panes, n).dom().contains(pane_name(panes[i].pane_id)),
        shells_of_panes(map, panes, n)[pane_name(panes[i].pane_id)] == panes[i].is_shell,
    decreases n,
{
    if i < n - 1 {
        lemma_pane_is_flagged(map, panes, (n - 1) as nat, i);
        assert(panes[n - 1].pane_id != panes[i].pane_id);
        if pane_name(panes[n - 1].pane_id) == pane_name(panes[i].pane_id) {
            law_pane_tags_distinct(panes[n - 1].pane_id, panes[i].pane_id);
        }
    }
}

proof fn lemma_windows_are_flagged(windows: Seq<WindowLayout>, n: nat, w: int, i: int)
    requires
        0 <= w < n <= windows.len(),
        0 <= i < windows[w].panes@.len(),
        is_last_of_its_id(windows, w, i),
    ensures
        shells_of_windows(windows, n).dom().contains(pane_name(windows[w].panes@[i].pane_id)),
        shells_of_windows(windows, n)[pane_name(windows[w].panes@[i].pane_id)]
            == windows[w].panes@[i].is_shell,
    decreases n,
{
    let earlier = shells_of_windows(windows, (n - 1) as nat);
    let last = windows[n - 1].panes@;
    let pane_id = windows[w].panes@[i].pane_id;
    assert forall|j: int| 0 <= j < last.len() && listed_behind(n - 1, j, w, i) implies (
    #[trigger] last[j]).pane_id != pane_id by {
        assert(windows[n - 1].panes@[j].pane_id != pane_id);
    }
    if w == n - 1 {
        lemma_pane_is_flagged(earlier, last, last.len(), i);
    } else {
        lemma_windows_are_flagged(windows, (n - 1) as nat, w, i);
        lemma_other_flags_stay(earlier, last, last.len(), pane_id);
    }
}

/// A pane's shell flag stands under the very tag that the snapshot gives the
/// pane. Where panes share an id, the last one's flag stands.
pub proof fn law_pane_is_flagged_by_its_tag(
    states: Seq<TmuxWindowState>,
    windows: Seq<WindowLayout>,
    w: int,
    i: int,
)
    requires
        shows_windows(states, windows),
        0 <= w < windows.len(),
        0 <= i < windows[w].panes@.len(),
        is_last_of_its_id(windows, w, i),
    ensures
        ({
            let flags = shells_of_windows(windows, windows.len());
            let tag = states[w].panes@[i].id@;
            flags.dom().contains(tag) && flags[tag] == windows[w].panes@[i].is_shell
        }),
{
    assert(shows_window(states[w], windows[w]));
    assert(shows_pane(
        states[w].panes@[i],
        windows[w].panes@[i],
        window_name(windows[w].window_id),
    ));
    lemma_windows_are_flagged(windows, windows.len(), w, i);
}

/// Every pane of the layout has a state of its own at the same place of the
/// same window, and there are no others. It keeps the pane's sides, its offset,
/// its activity, its directory and its command, and names the pane and the
/// window by tags that read back as their ids.
pub proof fn law_panes_keep_their_place(
    session: String,
    windows: Vec<WindowLayout>,
    shown: SessionSnapshot,
    w: int,
    i: int,
)
    requires
        call_ensures(layout_to_snapshot, (session, windows), shown),
        0 <= w < windows@.len(),
        0 <= i < windows@[w].panes@.len(),
    ensures
        shown.snapshot.windows@.len() == windows@.len(),
        shown.snapshot.windows@[w].panes@.len() == windows@[w].panes@.len(),
        ({
            let pane = windows@[w].panes@[i];
            let state = shown.snapshot.windows@[w].panes@[i];
            &&& state.width == pane.width && state.height == pane.height
            &&& state.left == pane.left && state.top == pane.top
            &&& state.is_active == pane.active
            &&& state.current_path@ == pane.current_path@
            &&& state.current_command@ == pane.current_command@
            &&& pane_in(state.id@) == Some(pane.pane_id)
            &&& state.window_id@ == shown.snapshot.windows@[w].id@
            &&& state.cursor_x == 0 && state.cursor_y == 0
            &&& state.session_id@ == Seq::<char>::empty()
        }),
{
    assert(shows_window(shown.snapshot.windows@[w], windows@[w]));
    assert(shows_pane(
        shown.snapshot.windows@[w].panes@[i],
        windows@[w].panes@[i],
        window_name(windows@[w].window_id),
    ));
    law_pane_tag_reads_back(windows@[w].panes@[i].pane_id);
    assert(shown.snapshot.windows@[w].panes@[i].session_id@ =~= Seq::<char>::empty());
}

/// Panes that tile a window in the layout tile it in the snapshot: what stands
/// left of or above another pane stays there, at the same distance.
pub proof fn law_tiling_is_kept(
    session: String,
    windows: Vec<WindowLayout>,
    shown: SessionSnapshot,
    w: int,
    i: int,
    j: int,
)
    requires
        call_ensures(layout_to_snapshot, (session, windows), shown),
        0 <= w < windows@.len(),
        0 <= i < windows@[w].panes@.len(),
        0 <= j < windows@[w].panes@.len(),
    ensures
        ({
            let a = windows@[w].panes@[i];
            let b = windows@[w].panes@[j];
            let s = shown.snapshot.windows@[w].panes@[i];
            let t = shown.snapshot.windows@[w].panes@[j];
            &&& t.left - (s.left + s.width) == b.left - (a.left + a.width)
            &&& t.top - (s.top + s.height) == b.top - (a.top + a.height)
            &&& s.width * s.height == a.width * a.height
        }),
{
    law_panes_keep_their_place(session, windows, shown, w, i);
    law_panes_keep_their_place(session, windows, shown, w, j);
}

/// Every window of the layout has a state at its place. It keeps the window's
/// name and activity, and its tag is the window's id behind an at sign.
pub proof fn law_windows_keep_their_place(
    session: String,
    windows: Vec<WindowLayout>,
    shown: SessionSnapshot,
    w: int,
)
    requires
        call_ensures(layout_to_snapshot, (session, windows), shown),
        0 <= w < windows@.len(),
    ensures
        shown.snapshot.session_name == session,
        shown.snapshot.session_id is None,
        ({
            let window = windows@[w];
            let state = shown.snapshot.windows@[w];
            &&& state.name@ == window.name@
            &&& state.is_active == window.active
            &&& state.id@[0] == '@'
            &&& text::number_in(state.id@.skip(1)) == Some(window.window_id)
            &&& window.window_index < 0x8000_0000 ==> state.index == window.window_index
            &&& !state.automatic_rename
            &&& state.layout@ == Seq::<char>::empty()
        }),
{
    let state = shown.snapshot.windows@[w];
    assert(shows_window(state, windows@[w]));
    assert(state.id@.skip(1) =~= text::decimal_text(windows@[w].window_id as nat));
    text::lemma_number_in_decimal(windows@[w].window_id);
    assert(state.layout@ =~= Seq::<char>::empty());
}

proof fn lemma_first_active(panes: Seq<PaneLayout>, n: nat)
    requires
        n <= panes.len(),
    ensures
        match first_active(panes, n) {
            Some(tag) => exists|i: int|
                0 <= i < n && (#[trigger] panes[i]).active && tag == pane_name(panes[i].pane_id) && (
                forall|j: int| 0 <= j < i ==> !(#[trigger] panes[j]).active),
            None => forall|j: int| 0 <= j < n ==> !(#[trigger] panes[j]).active,
        },
    decreases n,
{
    if n > 0 {
        lemma_first_active(panes, (n - 1) as nat);
        if first_active(panes, (n - 1) as nat) is None && panes[n - 1].active {
            assert(panes[n - 1].active);
        }
    }
}

/// The active pane of a window is the first one that the layout marks active;
/// there is none exactly where it marks none.
pub proof fn law_active_pane_is_the_first_marked(
    session: String,
    windows: Vec<WindowLayout>,
    shown: SessionSnapshot,
    w: int,
)
    requires
        call_ensures(layout_to_snapshot, (session, windows), shown),
        0 <= w < windows@.len(),
    ensures
        match shown.snapshot.windows@[w].active_pane_id {
            Some(tag) => exists|i: int|
                0 <= i < windows@[w].panes@.len() && (#[trigger] windows@[w].panes@[i]).active
                    && pane_in(tag@) == Some(windows@[w].panes@[i].pane_id) && (forall|j: int|
                    0 <= j < i ==> !(#[trigger] windows@[w].panes@[j]).active),
            None => forall|j: int|
                0 <= j < windows@[w].panes@.len() ==> !(#[trigger] windows@[w].panes@[j]).active,
        },
{
    let panes = windows@[w].panes@;
    assert(shows_window(shown.snapshot.windows@[w], windows@[w]));
    lemma_first_active(panes, panes.len());
    if let Some(tag) = shown.snapshot.windows@[w].active_pane_id {
        let i = choose|i: int|
            0 <= i < panes.len() && (#[trigger] panes[i]).active && tag@ == pane_name(
                panes[i].pane_id,
            ) && (forall|j: int| 0 <= j < i ==> !(#[trigger] panes[j]).active);
        law_pane_tag_reads_back(panes[i].pane_id);
        assert(windows@[w].panes@[i].active);
    }
}

proof fn lemma_flags_come_from_panes(
    map: Map<Seq<char>, bool>,
    panes: Seq<PaneLayout>,
    n: nat,
    tag: Seq<char>,
)
    requires
        n <= panes.len(),
        shells_of_panes(map, panes, n).dom().contains(tag),
    ensures
        map.dom().contains(tag) || exists|i: int|
            0 <= i < n && tag == pane_name((#[trigger] panes[i]).pane_id),
    decreases n,
{
    if n > 0 {
        if tag == pane_name(panes[n - 1].pane_id) {
            assert(tag == pane_name(panes[n - 1].pane_id));
        } else {
            lemma_flags_come_from_panes(map, panes, (n - 1) as nat, tag);
        }
    }
}

proof fn lemma_flags_come_from_windows(windows: Seq<WindowLayout>, n: nat, tag: Seq<char>)
    requires
        n <= windows.len(),
        shells_of_windows(windows, n).dom().contains(tag),
    ensures
        exists|w: int, i: int|
            0 <= w < n && 0 <= i < windows[w].panes@.len() && tag == pane_name(
                (#[trigger] windows[w].panes@[i]).pane_id,
            ),
    decreases n,
{
    if n > 0 {
        let earlier = shells_of_windows(windows, (n - 1) as nat);
        let last = windows[n - 1].panes@;
        lemma_flags_come_from_panes(earlier, last, last.len(), tag);
        if earlier.dom().contains(tag) {
            lemma_flags_come_from_windows(windows, (n - 1) as nat, tag);
        } else {
            let i = choose|i: int|
                0 <= i < last.len() && tag == pane_name((#[trigger] last[i]).pane_id);
            assert(tag == pane_name(windows[n - 1].panes@[i].pane_id));
        }
    }
}

/// Asked by a pane's tag, a snapshot tells whether that pane runs a shell, the
/// last pane of an id where several share it; it knows no tag of another pane.
pub proof fn law_snapshot_knows_the_shells(
    session: String,
    windows: Vec<WindowLayout>,
    shown: SessionSnapshot,
    tag: &str,
    shell: Option<bool>,
)
    requires
        call_ensures(layout_to_snapshot, (session, windows), shown),
        call_ensures(SessionSnapshot::is_shell, (&shown, tag), shell),
    ensures
        forall|w: int, i: int|
            0 <= w < windows@.len() && 0 <= i < windows@[w].panes@.len() && pane_name(
                (#[trigger] windows@[w].panes@[i]).pane_id,
            ) == tag@ && is_last_of_its_id(windows@, w, i) ==> shell == Some(
                windows@[w].panes@[i].is_shell,
            ),
        shell is Some ==> exists|w: int, i: int|
            0 <= w < windows@.len() && 0 <= i < windows@[w].panes@.len() && pane_name(
                (#[trigger] windows@[w].panes@[i]).pane_id,
            ) == tag@,
{
    assert forall|w: int, i: int|
        0 <= w < windows@.len() && 0 <= i < windows@[w].panes@.len() && pane_name(
            (#[trigger] windows@[w].panes@[i]).pane_id,
        ) == tag@ && is_last_of_its_id(windows@, w, i) implies shell == Some(
        windows@[w].panes@[i].is_shell,
    ) by {
        lemma_windows_are_flagged(windows@, windows@.len(), w, i);
    }
    if shell is Some {
        lemma_flags_come_from_windows(windows@, windows@.len(), tag@);
    }
}

// ---------------------------------------------------------------------------
// Laws of the requests
// ---------------------------------------------------------------------------

/// A grid is asked for column by column and row by row: what fits sixteen bits
/// arrives as it is, and columns and rows keep their places.
pub proof fn law_resize_asks_for_the_grid(size: TermSize, message: ClientMessage)
    requires
        call_ensures(resize_message, (size,), message),
    ensures
        message matches ClientMessage::ResizePane { pane_id, cols, rows } && {
            &&& pane_id == 0
            &&& size.cols <= u16::MAX ==> cols == size.cols
            &&& size.rows <= u16::MAX ==> rows == size.rows
        },
{
}

/// Input goes to the pane whose tag it carries, with the text that was typed;
/// input for no pane goes nowhere.
pub proof fn law_input_reaches_its_pane(
    pane: u32,
    typed: Seq<char>,
    input: PaneInput,
    message: Option<ClientMessage>,
)
    requires
        call_ensures(input_message, (input,), message),
    ensures
        input.pane_id@ == pane_name(pane) && input.bytes@ == vstd::utf8::encode_utf8(typed)
            ==> (message matches Some(ClientMessage::Input { pane_id, data }) && pane_id == pane
            && data@ == typed),
        (input.pane_id@.len() == 0 || input.pane_id@[0] != '%') ==> message is None,
{
    law_pane_tag_reads_back(pane);
}

/// A capture asks for the very rows of the very pane, joined or not as wanted.
pub proof fn law_capture_asks_for_its_rows(
    pane: u32,
    request: CaptureRequest,
    message: Option<ClientMessage>,
)
    requires
        call_ensures(capture_message, (request,), message),
    ensures
        request.pane_id@ == pane_name(pane) ==> (message matches Some(
            ClientMessage::CapturePane { pane_id, start, end, join },
        ) && pane_id == pane && start == request.start_row && end == request.end_row && join
            == request.join_wraps),
        (request.pane_id@.len() == 0 || request.pane_id@[0] != '%') ==> message is None,
{
    law_pane_tag_reads_back(pane);
}

/// A command, a file to open and a file to compare arrive as what they are, with
/// the text that was given.
pub proof fn law_requests_keep_their_text(
    given: String,
    command: ClientMessage,
    open: ClientMessage,
    diff: ClientMessage,
)
    requires
        call_ensures(command_message, (given,), command),
        call_ensures(open_file_message, (given,), open),
        call_ensures(request_diff_message, (given,), diff),
    ensures
        command matches ClientMessage::TmuxCommand { cmd } && cmd == given,
        open matches ClientMessage::OpenFile { path } && path == given,
        diff matches ClientMessage::RequestDiff { path } && path == given,
{
}

/// The key tables are asked for again after a command that changed them and was
/// sent, and after no other.
pub proof fn law_key_tables_follow_a_change(
    sent: bool,
    changes_bindings: bool,
    message: Option<ClientMessage>,
)
    requires
        call_ensures(after_command, (sent, changes_bindings), message),
    ensures
        message is Some <==> sent && changes_bindings,
        message matches Some(asked) ==> asked is QueryKeyTable,
{
}

/// A session is opened by its name before its grid is set, and it is set only
/// where it is known.
pub proof fn law_attach_comes_first(
    session: &str,
    viewport: Option<TermSize>,
    messages: Vec<ClientMessage>,
)
    requires
        call_ensures(attach_messages, (session, viewport), messages),
    ensures
        messages@[0] matches ClientMessage::Attach { session: name } && name@ == session@,
        viewport is None ==> messages@.len() == 1,
        viewport matches Some(size) ==> messages@.len() == 2 && (messages@[1] matches
            ClientMessage::ResizePane { pane_id, cols, rows } && (size.cols <= u16::MAX ==> cols
            == size.cols) && (size.rows <= u16::MAX ==> rows == size.rows)),
{
}

/// What was switched to and resized last is what a reconnect opens: the session
/// of the last switch that was sent, on the last grid.
pub proof fn law_reconnect_comes_back(
    watches: &mut EngineWatches,
    request: SessionSwitchRequest,
    sent: bool,
    asked: Option<ClientMessage>,
    opening: Vec<ClientMessage>,
)
    requires
        call_ensures(EngineWatches::switched, (watches, request, sent), asked),
        call_ensures(EngineWatches::reattach, (final(watches),), opening),
    ensures
        opening@[0] matches ClientMessage::Attach { session } && session@ == if sent {
            request.session@
        } else {
            old(watches).session@
        },
        asked is Some <==> sent,
        asked matches Some(ClientMessage::ResizePane { pane_id, cols, rows }) ==> (
        request.size.cols <= u16::MAX ==> cols == request.size.cols) && (request.size.rows
            <= u16::MAX ==> rows == request.size.rows),
        final(watches).viewport == old(watches).viewport,
        old(watches).viewport matches Some(size) ==> opening@.len() == 2 && (opening@[1] matches
            ClientMessage::ResizePane { pane_id, cols, rows } && (size.cols <= u16::MAX ==> cols
            == size.cols) && (size.rows <= u16::MAX ==> rows == size.rows)),
{
}

/// A new grid is remembered, leaves the session alone, and is what a reconnect
/// sets.
pub proof fn law_grid_is_remembered(
    watches: &mut EngineWatches,
    size: TermSize,
    asked: ClientMessage,
    opening: Vec<ClientMessage>,
)
    requires
        call_ensures(EngineWatches::resized, (watches, size), asked),
        call_ensures(EngineWatches::reattach, (final(watches),), opening),
    ensures
        final(watches).session == old(watches).session,
        final(watches).viewport == Some(size),
        opening@.len() == 2 && opening@[1] == asked,
        opening@[0] matches ClientMessage::Attach { session } && session@
            == old(watches).session@,
        asked matches ClientMessage::ResizePane { pane_id, cols, rows } && (size.cols <= u16::MAX
            ==> cols == size.cols) && (size.rows <= u16::MAX ==> rows == size.rows),
{
}

/// A switch asks for the session that it names.
pub proof fn law_switch_names_its_session(request: SessionSwitchRequest, message: ClientMessage)
    requires
        call_ensures(switch_message, (&request,), message),
    ensures
        message matches ClientMessage::Attach { session } && session@ == request.session@,
{
}

/// A pane's tag is a percent sign before its id and a window's an at sign, and
/// a pane's is read back as its id.
pub proof fn law_tags_read_back(
    id: u32,
    pane: String,
    window: String,
    tag: &str,
    read: Option<u32>,
)
    requires
        call_ensures(pane_tag, (id,), pane),
        call_ensures(window_tag, (id,), window),
        tag@ == pane@,
        call_ensures(parse_pane_id, (tag,), read),
    ensures
        read == Some(id),
        pane@[0] == '%' && window@[0] == '@',
        pane@.skip(1) == window@.skip(1),
{
    law_pane_tag_reads_back(id);
    assert(pane@.skip(1) =~= window@.skip(1));
}

/// Typed text comes out of its bytes as it went in, and equal bytes give equal
/// text.
pub proof fn law_typed_text_is_kept(
    bytes: Vec<u8>,
    other: Vec<u8>,
    decoded: String,
    again: String,
    typed: Seq<char>,
)
    requires
        call_ensures(bytes_to_string, (bytes,), decoded),
        call_ensures(bytes_to_string, (other,), again),
    ensures
        bytes@ == vstd::utf8::encode_utf8(typed) ==> decoded@ == typed,
        bytes@ == other@ ==> decoded@ == again@,
{
}

/// The snapshot is of the session, with as many windows as the layout; a window
/// keeps its number, read as a signed one.
pub proof fn law_snapshot_is_of_its_session(
    session: String,
    windows: Vec<WindowLayout>,
    shown: SessionSnapshot,
    w: int,
)
    requires
        call_ensures(layout_to_snapshot, (session, windows), shown),
    ensures
        shown.snapshot.session_name == session,
        shown.snapshot.windows@.len() == windows@.len(),
        0 <= w < windows@.len() ==> (shown.snapshot.windows@[w].index - windows@[w].window_index)
            % 0x1_0000_0000 == 0,
{
    if 0 <= w < windows@.len() {
        assert(shows_window(shown.snapshot.windows@[w], windows@[w]));
    }
}

} // verus!
