//! Where each of the daemon's messages goes.

use vstd::prelude::*;

use crate::messages::{
    CaptureResult, ConnectionStatus, DaemonMessage, KeyTableQueryResult, PaneOutput, SessionEntry,
    SessionListItem, SessionSnapshot,
};
use crate::terminal;

verus! {

/// How the daemon's stream ended.
#[derive(Clone, Copy, Debug, PartialEq, Eq, Structural)]
pub enum StreamEnd {
    /// The stream broke off. While SSH is up it can be recovered.
    Closed,
    /// The terminal ended in order. There is nothing to recover.
    TerminalExit,
}

/// A part of the client that takes messages.
#[derive(Clone, Copy, Debug, PartialEq, Eq, Structural)]
pub enum Consumer {
    PaneOutput,
    Capture,
    KeyTable,
    SessionList,
    Layout,
    /// The end of the terminal.
    Exit,
    Worktree,
    Buffer,
    Nav,
    LspStatus,
    Diff,
    FileOpResult,
    /// Nothing waits for the message.
    Nobody,
}

/// The part of the client that a message is for.
pub open spec fn consumer_of<P>(message: DaemonMessage<P>) -> Consumer {
    match message {
        DaemonMessage::PaneOutput { .. } => Consumer::PaneOutput,
        DaemonMessage::PaneCapture { .. } => Consumer::Capture,
        DaemonMessage::KeyTableReply { .. } => Consumer::KeyTable,
        DaemonMessage::SessionListReply { .. } => Consumer::SessionList,
        DaemonMessage::LayoutSnapshot { .. } => Consumer::Layout,
        DaemonMessage::LayoutUpdate { .. } => Consumer::Layout,
        DaemonMessage::TerminalExit { .. } => Consumer::Exit,
        DaemonMessage::WorktreeSnapshot(_) => Consumer::Worktree,
        DaemonMessage::UpdateWorktree(_) => Consumer::Worktree,
        DaemonMessage::UpdateGitStatus(_) => Consumer::Worktree,
        DaemonMessage::RepoState(_) => Consumer::Worktree,
        DaemonMessage::Diagnostics(_) => Consumer::Worktree,
        DaemonMessage::FileContent(_) => Consumer::Buffer,
        DaemonMessage::SaveResult(_) => Consumer::Buffer,
        DaemonMessage::SaveConflict(_) => Consumer::Buffer,
        DaemonMessage::OpenError(_) => Consumer::Buffer,
        DaemonMessage::SaveError(_) => Consumer::Buffer,
        DaemonMessage::DefinitionResponse(_) => Consumer::Nav,
        DaemonMessage::HoverResponse(_) => Consumer::Nav,
        DaemonMessage::ReferencesResponse(_) => Consumer::Nav,
        DaemonMessage::DocumentSymbolResponse(_) => Consumer::Nav,
        DaemonMessage::LspStatus(_) => Consumer::LspStatus,
        DaemonMessage::FileDiff(_) => Consumer::Diff,
        DaemonMessage::FileOpResult(_) => Consumer::FileOpResult,
        DaemonMessage::Other(_) => Consumer::Nobody,
    }
}

/// A consumer that is there in terminal mode only.
pub open spec fn terminal_only(consumer: Consumer) -> bool {
    match consumer {
        Consumer::PaneOutput | Consumer::Capture | Consumer::KeyTable | Consumer::SessionList
        | Consumer::Layout | Consumer::Exit => true,
        _ => false,
    }
}

/// What becomes of a message.
pub enum Routed<P> {
    PaneOutput(PaneOutput),
    Capture(CaptureResult),
    KeyTable(KeyTableQueryResult),
    SessionList(Vec<SessionListItem>),
    Layout(SessionSnapshot),
    /// The terminal ended: so does the stream.
    Exit,
    /// The message goes on as it is to one of the other consumers.
    Forward { to: Consumer, message: DaemonMessage<P> },
    /// Nobody takes the message.
    Dropped,
}

/// `items` lists `sessions` for the render layer.
pub open spec fn lists_sessions(items: Seq<SessionListItem>, sessions: Seq<SessionEntry>) -> bool {
    &&& items.len() == sessions.len()
    &&& forall|i: int|
        0 <= i < sessions.len() ==> #[trigger] items[i] == (SessionListItem {
            id: sessions[i].id,
            name: sessions[i].name,
            windows: sessions[i].windows,
            attached: sessions[i].attached,
        })
}

/// `shown` is the snapshot of a layout.
pub open spec fn shows_layout(
    shown: SessionSnapshot,
    session: String,
    windows: Seq<crate::messages::WindowLayout>,
) -> bool {
    &&& shown.snapshot.session_name == session
    &&& shown.snapshot.session_id is None
    &&& terminal::shows_windows(shown.snapshot.windows@, windows)
    &&& shown.pane_is_shell.wf()
    &&& terminal::shell_flags(shown.pane_is_shell@) == terminal::shells_of_windows(
        windows,
        windows.len(),
    )
}

/// `routed` is what becomes of a message, in terminal mode or without.
pub open spec fn is_route<P>(
    message: DaemonMessage<P>,
    in_terminal: bool,
    routed: Routed<P>,
) -> bool {
    let to = consumer_of(message);
    if to == Consumer::Nobody || (terminal_only(to) && !in_terminal) {
        routed is Dropped
    } else {
        match message {
            DaemonMessage::PaneOutput { pane_id, bytes } => routed matches Routed::PaneOutput(out)
                && out.pane_id@ == terminal::pane_name(pane_id) && out.bytes == bytes,
            DaemonMessage::PaneCapture { pane_id, bytes } => routed matches Routed::Capture(
                capture,
            ) && capture.pane_id@ == terminal::pane_name(pane_id) && capture.bytes == bytes,
            DaemonMessage::KeyTableReply { list_keys, options } => routed matches Routed::KeyTable(
                tables,
            ) && tables == (KeyTableQueryResult { list_keys, options }),
            DaemonMessage::SessionListReply { sessions } => routed matches Routed::SessionList(
                items,
            ) && lists_sessions(items@, sessions@),
            DaemonMessage::LayoutSnapshot { session, windows } => routed matches Routed::Layout(
                shown,
            ) && shows_layout(shown, session, windows@),
            DaemonMessage::LayoutUpdate { session, windows } => routed matches Routed::Layout(
                shown,
            ) && shows_layout(shown, session, windows@),
            DaemonMessage::TerminalExit { .. } => routed is Exit,
            _ => routed == (Routed::Forward { to, message }),
        }
    }
}

fn session_items(sessions: Vec<SessionEntry>) -> (items: Vec<SessionListItem>)
    ensures
        lists_sessions(items@, sessions@),
{
    let mut items: Vec<SessionListItem> = Vec::new();
    while items.len() < sessions.len()
        invariant
            items@.len() <= sessions@.len(),
            forall|i: int|
                0 <= i < items@.len() ==> #[trigger] items@[i] == (SessionListItem {
                    id: sessions@[i].id,
                    name: sessions@[i].name,
                    windows: sessions@[i].windows,
                    attached: sessions@[i].attached,
                }),
        decreases sessions@.len() - items@.len(),
    {
        let entry = &sessions[items.len()];
        items.push(
            SessionListItem {
                id: entry.id.clone(),
                name: entry.name.clone(),
                windows: entry.windows,
                attached: entry.attached,
            },
        );
    }
    items
}

/// Finds out where a message goes. Without a terminal the terminal's messages
/// are dropped, and its end does not end the stream.
pub fn route_daemon_message<P>(message: DaemonMessage<P>, in_terminal: bool) -> (routed: Routed<P>)
    ensures
        is_route(message, in_terminal, routed),
{
    match message {
        DaemonMessage::PaneOutput { pane_id, bytes } => if in_terminal {
            Routed::PaneOutput(PaneOutput { pane_id: terminal::pane_tag(pane_id), bytes })
        } else {
            Routed::Dropped
        },
        DaemonMessage::PaneCapture { pane_id, bytes } => if in_terminal {
            Routed::Capture(CaptureResult { pane_id: terminal::pane_tag(pane_id), bytes })
        } else {
            Routed::Dropped
        },
        DaemonMessage::KeyTableReply { list_keys, options } => if in_terminal {
            Routed::KeyTable(KeyTableQueryResult { list_keys, options })
        } else {
            Routed::Dropped
        },
        DaemonMessage::SessionListReply { sessions } => if in_terminal {
            Routed::SessionList(session_items(sessions))
        } else {
            Routed::Dropped
        },
        DaemonMessage::LayoutSnapshot { session, windows } => if in_terminal {
            Routed::Layout(terminal::layout_to_snapshot(session, windows))
        } else {
            Routed::Dropped
        },
        DaemonMessage::LayoutUpdate { session, windows } => if in_terminal {
            Routed::Layout(terminal::layout_to_snapshot(session, windows))
        } else {
            Routed::Dropped
        },
        DaemonMessage::TerminalExit { session, reason } => if in_terminal {
            Routed::Exit
        } else {
            Routed::Dropped
        },
        DaemonMessage::WorktreeSnapshot(_) | DaemonMessage::UpdateWorktree(_)
        | DaemonMessage::UpdateGitStatus(_) | DaemonMessage::RepoState(_)
        | DaemonMessage::Diagnostics(_) => Routed::Forward { to: Consumer::Worktree, message },
        DaemonMessage::FileContent(_) | DaemonMessage::SaveResult(_)
        | DaemonMessage::SaveConflict(_) | DaemonMessage::OpenError(_)
        | DaemonMessage::SaveError(_) => Routed::Forward { to: Consumer::Buffer, message },
        DaemonMessage::DefinitionResponse(_) | DaemonMessage::HoverResponse(_)
        | DaemonMessage::ReferencesResponse(_)
        | DaemonMessage::DocumentSymbolResponse(_) => Routed::Forward {
            to: Consumer::Nav,
            message,
        },
        DaemonMessage::LspStatus(_) => Routed::Forward { to: Consumer::LspStatus, message },
        DaemonMessage::FileDiff(_) => Routed::Forward { to: Consumer::Diff, message },
        DaemonMessage::FileOpResult(_) => Routed::Forward { to: Consumer::FileOpResult, message },
        DaemonMessage::Other(_) => Routed::Dropped,
    }
}

/// The first `n` of `routes` answer the first `n` of `messages`, one by one,
/// and none but the last of them can end the stream.
pub open spec fn routes_prefix<P>(
    messages: Seq<DaemonMessage<P>>,
    in_terminal: bool,
    routes: Seq<Routed<P>>,
) -> bool {
    &&& routes.len() <= messages.len()
    &&& forall|i: int|
        0 <= i < routes.len() ==> is_route(messages[i], in_terminal, #[trigger] routes[i])
    &&& forall|i: int| 0 <= i < routes.len() - 1 ==> !(#[trigger] routes[i] is Exit)
}

/// Consumes a stream from its first message to its end: every message is routed
/// in its order. The end of the terminal ends the stream; what follows it is
/// not looked at. Otherwise the stream ends with its last message.
pub fn consume_daemon_messages<P>(messages: Vec<DaemonMessage<P>>, in_terminal: bool) -> (consumed: (
    Vec<Routed<P>>,
    StreamEnd,
))
    ensures
        routes_prefix(messages@, in_terminal, consumed.0@),
        consumed.1 == StreamEnd::TerminalExit <==> (consumed.0@.len() > 0
            && consumed.0@.last() is Exit),
        consumed.1 == StreamEnd::Closed ==> consumed.0@.len() == messages@.len(),
{
    let ghost all = messages@;
    // Reversed so that the messages can be moved out from the end.
    let mut rest: Vec<DaemonMessage<P>> = Vec::new();
    let mut pending = messages;
    while pending.len() > 0
        invariant
            pending@.len() + rest@.len() == all.len(),
            pending@ == all.take(pending@.len() as int),
            forall|i: int| 0 <= i < rest@.len() ==> rest@[i] == all[all.len() - 1 - i],
        decreases pending@.len(),
    {
        match pending.pop() {
            Some(message) => {
                assert(pending@ =~= all.take(pending@.len() as int));
                rest.push(message);
            },
            None => {},
        }
    }
    let mut routes: Vec<Routed<P>> = Vec::new();
    let mut exited: bool = false;
    while !exited && rest.len() > 0
        invariant
            rest@.len() + routes@.len() == all.len(),
            forall|i: int| 0 <= i < rest@.len() ==> rest@[i] == all[all.len() - 1 - i],
            routes_prefix(all, in_terminal, routes@),
            exited == (routes@.len() > 0 && routes@.last() is Exit),
        decreases rest@.len(),
    {
        match rest.pop() {
            Some(message) => {
                assert(message == all[routes@.len() as int]);
                let routed = route_daemon_message(message, in_terminal);
                exited = match &routed {
                    Routed::Exit => true,
                    _ => false,
                };
                let ghost earlier = routes@;
                routes.push(routed);
                proof {
                    assert forall|i: int| 0 <= i < routes@.len() implies is_route(
                        all[i],
                        in_terminal,
                        #[trigger] routes@[i],
                    ) by {
                        if i < earlier.len() {
                            assert(routes@[i] == earlier[i]);
                        }
                    }
                    assert forall|i: int| 0 <= i < routes@.len() - 1 implies !(
                    #[trigger] routes@[i] is Exit) by {
                        assert(routes@[i] == earlier[i]);
                    }
                }
            },
            None => {},
        }
    }
    if exited {
        (routes, StreamEnd::TerminalExit)
    } else {
        (routes, StreamEnd::Closed)
    }
}

/// What a terminal does when its stream ended: it shows a status and recovers
/// the stream, or it ends in order.
#[derive(Clone, Copy, Debug, PartialEq, Eq, Structural)]
pub enum AfterStream {
    Finish,
    Recover { show: ConnectionStatus },
}

/// What a terminal does when its stream ended.
pub fn after_stream(end: StreamEnd) -> (next: AfterStream)
    ensures
        next == match end {
            StreamEnd::TerminalExit => AfterStream::Finish,
            StreamEnd::Closed => AfterStream::Recover { show: ConnectionStatus::Reconnecting },
        },
{
    match end {
        StreamEnd::TerminalExit => AfterStream::Finish,
        StreamEnd::Closed => AfterStream::Recover { show: ConnectionStatus::Reconnecting },
    }
}

// ---------------------------------------------------------------------------
// Laws
// ---------------------------------------------------------------------------

/// The worktree, the buffers and the other forwarded messages reach the client
/// unchanged, with a terminal or without.
pub proof fn law_forwarding_ignores_terminal<P>(
    message: DaemonMessage<P>,
    with: Routed<P>,
    without: Routed<P>,
)
    requires
        !terminal_only(consumer_of(message)),
        is_route(message, true, with),
        is_route(message, false, without),
    ensures
        with == without,
        consumer_of(message) != Consumer::Nobody ==> with == (Routed::Forward {
            to: consumer_of(message),
            message,
        }),
{
}

/// Without a terminal nothing ends the stream but its own end.
pub proof fn law_only_a_terminal_exits<P>(message: DaemonMessage<P>, routed: Routed<P>)
    requires
        is_route(message, false, routed),
    ensures
        !(routed is Exit),
{
}

/// The part of the client that a routed value reaches.
pub open spec fn reaches<P>(routed: Routed<P>) -> Consumer {
    match routed {
        Routed::PaneOutput(_) => Consumer::PaneOutput,
        Routed::Capture(_) => Consumer::Capture,
        Routed::KeyTable(_) => Consumer::KeyTable,
        Routed::SessionList(_) => Consumer::SessionList,
        Routed::Layout(_) => Consumer::Layout,
        Routed::Exit => Consumer::Exit,
        Routed::Forward { to, message: _ } => to,
        Routed::Dropped => Consumer::Nobody,
    }
}

/// Whatever is not dropped reaches the part of the client that its message is
/// for, and in terminal mode nothing is dropped that anybody waits for.
pub proof fn law_messages_reach_their_consumer<P>(
    message: DaemonMessage<P>,
    in_terminal: bool,
    routed: Routed<P>,
)
    requires
        call_ensures(route_daemon_message::<P>, (message, in_terminal), routed),
    ensures
        !(routed is Dropped) ==> reaches(routed) == consumer_of(message),
        in_terminal ==> reaches(routed) == consumer_of(message),
        routed is Dropped ==> !in_terminal || message is Other,
{
}

/// Each kind of message becomes the one thing that it stands for, and nothing
/// else becomes that.
pub proof fn law_each_kind_has_its_route<P>(message: DaemonMessage<P>, routed: Routed<P>)
    requires
        call_ensures(route_daemon_message::<P>, (message, true), routed),
    ensures
        routed is PaneOutput <==> message is PaneOutput,
        routed is Capture <==> message is PaneCapture,
        routed is KeyTable <==> message is KeyTableReply,
        routed is SessionList <==> message is SessionListReply,
        routed is Layout <==> message is LayoutSnapshot || message is LayoutUpdate,
        routed is Exit <==> message is TerminalExit,
        routed is Dropped <==> message is Other,
{
}

/// What a forwarded message is for: the worktree, the buffers, the navigation,
/// or one of the three that have a message of their own.
pub proof fn law_forwarded_messages_go_home<P>(
    message: DaemonMessage<P>,
    in_terminal: bool,
    routed: Routed<P>,
)
    requires
        call_ensures(route_daemon_message::<P>, (message, in_terminal), routed),
    ensures
        message is WorktreeSnapshot || message is UpdateWorktree || message is UpdateGitStatus
            || message is RepoState || message is Diagnostics ==> routed == (Routed::Forward {
            to: Consumer::Worktree,
            message,
        }),
        message is FileContent || message is SaveResult || message is SaveConflict || message
            is OpenError || message is SaveError ==> routed == (Routed::Forward {
            to: Consumer::Buffer,
            message,
        }),
        message is DefinitionResponse || message is HoverResponse || message is ReferencesResponse
            || message is DocumentSymbolResponse ==> routed == (Routed::Forward {
            to: Consumer::Nav,
            message,
        }),
        message is LspStatus ==> routed == (Routed::Forward { to: Consumer::LspStatus, message }),
        message is FileDiff ==> routed == (Routed::Forward { to: Consumer::Diff, message }),
        message is FileOpResult ==> routed == (Routed::Forward {
            to: Consumer::FileOpResult,
            message,
        }),
{
}

/// A pane's output and its captured text keep their bytes and name their pane,
/// and the key tables keep their two texts apart.
pub proof fn law_terminal_values_keep_their_content<P>(
    message: DaemonMessage<P>,
    routed: Routed<P>,
)
    requires
        call_ensures(route_daemon_message::<P>, (message, true), routed),
    ensures
        message matches DaemonMessage::PaneOutput { pane_id, bytes } ==> (routed matches
            Routed::PaneOutput(out) && terminal::pane_in(out.pane_id@) == Some(pane_id)
            && out.bytes == bytes),
        message matches DaemonMessage::PaneCapture { pane_id, bytes } ==> (routed matches
            Routed::Capture(out) && terminal::pane_in(out.pane_id@) == Some(pane_id) && out.bytes
            == bytes),
        message matches DaemonMessage::KeyTableReply { list_keys, options } ==> (routed matches
            Routed::KeyTable(tables) && tables.list_keys == list_keys && tables.options == options),
{
    match message {
        DaemonMessage::PaneOutput { pane_id, bytes } => {
            terminal::law_pane_tag_reads_back(pane_id);
        },
        DaemonMessage::PaneCapture { pane_id, bytes } => {
            terminal::law_pane_tag_reads_back(pane_id);
        },
        _ => {},
    }
}

/// Every session of the host is listed once and in its place, with its own id,
/// name, number of windows and whether it is attached.
pub proof fn law_sessions_are_listed<P>(
    sessions: Vec<SessionEntry>,
    routed: Routed<P>,
    i: int,
)
    requires
        call_ensures(
            route_daemon_message::<P>,
            (DaemonMessage::SessionListReply { sessions }, true),
            routed,
        ),
        0 <= i < sessions@.len(),
    ensures
        routed matches Routed::SessionList(items) && {
            &&& items@.len() == sessions@.len()
            &&& items@[i].id == sessions@[i].id
            &&& items@[i].name == sessions@[i].name
            &&& items@[i].windows == sessions@[i].windows
            &&& items@[i].attached == sessions@[i].attached
        },
{
    let message = DaemonMessage::<P>::SessionListReply { sessions };
    assert(consumer_of(message) == Consumer::SessionList);
}

/// A layout and an update of one show every pane with its own sides and offset,
/// in its own window.
pub proof fn law_layouts_show_every_pane<P>(
    session: String,
    windows: Vec<crate::messages::WindowLayout>,
    whole: Routed<P>,
    update: Routed<P>,
    w: int,
    i: int,
)
    requires
        call_ensures(
            route_daemon_message::<P>,
            (DaemonMessage::LayoutSnapshot { session, windows }, true),
            whole,
        ),
        call_ensures(
            route_daemon_message::<P>,
            (DaemonMessage::LayoutUpdate { session, windows }, true),
            update,
        ),
        0 <= w < windows@.len(),
        0 <= i < windows@[w].panes@.len(),
    ensures
        ({
            let pane = windows@[w].panes@[i];
            &&& whole matches Routed::Layout(shown) && {
                let state = shown.snapshot.windows@[w].panes@[i];
                &&& shown.snapshot.session_name == session
                &&& state.width == pane.width && state.height == pane.height
                &&& state.left == pane.left && state.top == pane.top
                &&& terminal::pane_in(state.id@) == Some(pane.pane_id)
            }
            &&& update matches Routed::Layout(shown) && {
                let state = shown.snapshot.windows@[w].panes@[i];
                &&& shown.snapshot.session_name == session
                &&& state.width == pane.width && state.height == pane.height
                &&& state.left == pane.left && state.top == pane.top
                &&& terminal::pane_in(state.id@) == Some(pane.pane_id)
            }
        }),
{
    terminal::law_pane_tag_reads_back(windows@[w].panes@[i].pane_id);
    if let Routed::Layout(shown) = whole {
        assert(terminal::shows_window(shown.snapshot.windows@[w], windows@[w]));
        assert(terminal::shows_pane(
            shown.snapshot.windows@[w].panes@[i],
            windows@[w].panes@[i],
            terminal::window_name(windows@[w].window_id),
        ));
    }
    if let Routed::Layout(shown) = update {
        assert(terminal::shows_window(shown.snapshot.windows@[w], windows@[w]));
        assert(terminal::shows_pane(
            shown.snapshot.windows@[w].panes@[i],
            windows@[w].panes@[i],
            terminal::window_name(windows@[w].window_id),
        ));
    }
}

/// A stream is routed message by message up to the end of the terminal, and to
/// its last message where the terminal does not end. What follows the end of the
/// terminal is not looked at.
pub proof fn law_stream_is_routed_to_its_end<P>(
    messages: Vec<DaemonMessage<P>>,
    in_terminal: bool,
    consumed: (Vec<Routed<P>>, StreamEnd),
)
    requires
        call_ensures(consume_daemon_messages::<P>, (messages, in_terminal), consumed),
    ensures
        consumed.0@.len() <= messages@.len(),
        forall|i: int|
            0 <= i < consumed.0@.len() && !(#[trigger] consumed.0@[i] is Dropped) ==> reaches(
                consumed.0@[i],
            ) == consumer_of(messages@[i]),
        consumed.1 == StreamEnd::TerminalExit <==> in_terminal && exists|i: int|
            0 <= i < messages@.len() && #[trigger] messages@[i] is TerminalExit,
        consumed.1 == StreamEnd::Closed ==> consumed.0@.len() == messages@.len(),
        consumed.1 == StreamEnd::TerminalExit ==> consumed.0@.len() > 0 && messages@[consumed.0@.len()
            - 1] is TerminalExit && forall|i: int|
            0 <= i < consumed.0@.len() - 1 ==> !(#[trigger] messages@[i] is TerminalExit),
{
    let routes = consumed.0@;
    assert forall|i: int| 0 <= i < routes.len() && !(#[trigger] routes[i] is Dropped) implies reaches(
        routes[i],
    ) == consumer_of(messages@[i]) by {
        assert(is_route(messages@[i], in_terminal, routes[i]));
    }
    assert forall|i: int| 0 <= i < routes.len() implies (#[trigger] routes[i] is Exit <==> in_terminal
        && messages@[i] is TerminalExit) by {
        assert(is_route(messages@[i], in_terminal, routes[i]));
    }
    assert forall|i: int|
        0 <= i < routes.len() - 1 && in_terminal implies !(#[trigger] messages@[i]
        is TerminalExit) by {
        assert(!(routes[i] is Exit));
    }
    if consumed.1 == StreamEnd::TerminalExit {
        assert(routes[routes.len() - 1] is Exit);
        assert(messages@[routes.len() - 1] is TerminalExit);
    } else if in_terminal {
        assert forall|i: int| 0 <= i < messages@.len() implies !(#[trigger] messages@[i]
            is TerminalExit) by {
            assert(routes[i] is Exit <==> messages@[i] is TerminalExit);
        }
    }
}

/// Only a stream that broke off is recovered, and then the client shows that it
/// reconnects; a terminal that ended is left alone.
pub proof fn law_only_a_broken_stream_is_recovered(end: StreamEnd, next: AfterStream)
    requires
        call_ensures(after_stream, (end,), next),
    ensures
        next is Finish <==> end == StreamEnd::TerminalExit,
        next matches AfterStream::Recover { show } ==> show == ConnectionStatus::Reconnecting,
{
}

} // verus!
