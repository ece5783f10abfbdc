//! The reconnect engine of an SSH session: which failures are retried, how a
//! failure is told to the user, and what is dropped while no session is up.

use vstd::prelude::*;

use crate::messages::{
    CaptureRequest, ConnectionStatus, PaneInput, SessionSwitchRequest, TermSize,
};
use crate::terminal::EngineWatches;

verus! {

// ---------------------------------------------------------------------------
// Errors
// ---------------------------------------------------------------------------

/// What a cause of a failure is, as far as the engine tells causes apart.
#[derive(Clone, Copy, Debug, PartialEq, Eq, Structural)]
pub enum CauseKind {
    /// The SSH connection failed or was lost.
    Connection,
    /// A channel of the SSH connection failed or was closed.
    Channel,
    /// The host refused the key.
    Auth,
    /// The key could not be read.
    Key,
    /// The key needs a passphrase and none was given.
    KeyEncrypted,
    /// Anything that SSH itself did not report.
    Untyped,
}

/// The transport died; trying again can help.
pub open spec fn transport_shaped(kind: CauseKind) -> bool {
    kind == CauseKind::Connection || kind == CauseKind::Channel
}

impl CauseKind {
    /// Whether trying again can help.
    pub fn is_retryable(self) -> (retryable: bool)
        ensures
            retryable == transport_shaped(self),
    {
        match self {
            CauseKind::Connection => true,
            CauseKind::Channel => true,
            CauseKind::Auth => false,
            CauseKind::Key => false,
            CauseKind::KeyEncrypted => false,
            CauseKind::Untyped => false,
        }
    }
}

/// One link of a failure's chain.
#[derive(Debug, PartialEq, Eq)]
pub struct Cause {
    pub kind: CauseKind,
    pub message: String,
}

impl Clone for Cause {
    fn clone(&self) -> (copy: Self)
        ensures
            copy == *self,
    {
        Cause { kind: self.kind, message: self.message.clone() }
    }
}

/// A failed session: the chain of causes, from the outermost to the root.
#[derive(Debug, PartialEq, Eq)]
pub struct SessionError {
    causes: Vec<Cause>,
}

impl View for SessionError {
    type V = Seq<Cause>;

    closed spec fn view(&self) -> Seq<Cause> {
        self.causes@
    }
}

impl SessionError {
    /// The chain has at least one link.
    pub open spec fn wf(&self) -> bool {
        self@.len() > 0
    }

    /// A failure with one cause.
    pub fn new(cause: Cause) -> (error: Self)
        ensures
            error.wf(),
            error@ == seq![cause],
    {
        let mut causes: Vec<Cause> = Vec::new();
        causes.push(cause);
        assert(causes@ =~= seq![cause]);
        SessionError { causes }
    }

    /// A failure that is only a message.
    pub fn msg(message: String) -> (error: Self)
        ensures
            error.wf(),
            error@ == seq![Cause { kind: CauseKind::Untyped, message }],
    {
        SessionError::new(Cause { kind: CauseKind::Untyped, message })
    }

    /// The chain with a message put in front of it.
    pub fn context(self, message: String) -> (error: Self)
        ensures
            error.wf(),
            error@ == seq![Cause { kind: CauseKind::Untyped, message }] + self@,
    {
        let mut causes = self.causes;
        let ghost link = Cause { kind: CauseKind::Untyped, message };
        causes.insert(0, Cause { kind: CauseKind::Untyped, message });
        assert(causes@ =~= seq![link] + self@);
        SessionError { causes }
    }

    /// A failure from its whole chain; none where the chain is empty.
    pub fn from_causes(causes: Vec<Cause>) -> (error: Option<Self>)
        ensures
            error is Some <==> causes@.len() > 0,
            error matches Some(e) ==> e.wf() && e@ == causes@,
    {
        if causes.len() > 0 {
            Some(SessionError { causes })
        } else {
            None
        }
    }

    /// The chain.
    pub fn causes(&self) -> (causes: &Vec<Cause>)
        ensures
            causes@ == self@,
    {
        &self.causes
    }

    /// The outermost message.
    pub fn outermost(&self) -> (message: &str)
        requires
            self.wf(),
        ensures
            message@ == self@[0].message@,
    {
        self.causes[0].message.as_str()
    }

    /// The message of the root cause.
    pub fn root_cause(&self) -> (message: &str)
        requires
            self.wf(),
        ensures
            message@ == self@.last().message@,
    {
        self.causes[self.causes.len() - 1].message.as_str()
    }
}

/// Some cause of the chain is a dead transport.
pub open spec fn has_transport_cause(causes: Seq<Cause>) -> bool {
    exists|i: int| 0 <= i < causes.len() && transport_shaped((#[trigger] causes[i]).kind)
}

/// Whether the engine tries again after a failure: only a dead transport is
/// worth it. Anything else would come back the same.
pub fn is_retryable_session_error(error: &SessionError) -> (retryable: bool)
    ensures
        retryable == has_transport_cause(error@),
{
    let causes = error.causes();
    let mut i: usize = 0;
    while i < causes.len()
        invariant
            i <= causes@.len(),
            causes@ == error@,
            forall|k: int| 0 <= k < i ==> !transport_shaped((#[trigger] causes@[k]).kind),
        decreases causes@.len() - i,
    {
        if causes[i].kind.is_retryable() {
            assert(transport_shaped(error@[i as int].kind));
            return true;
        }
        i = i + 1;
    }
    false
}

/// A failure as the connection screen shows it.
#[derive(Debug, PartialEq, Eq)]
pub enum ConnectError {
    /// Beside the passphrase field.
    Passphrase(String),
    /// In the banner.
    General(String),
}

/// A cause that points at the passphrase: the key needs one and none was given,
/// or one was given and the key could not be read with it.
pub open spec fn blames_passphrase(kind: CauseKind, has_passphrase: bool) -> bool {
    kind == CauseKind::KeyEncrypted || (kind == CauseKind::Key && has_passphrase)
}

/// Some cause of the chain points at the passphrase.
pub open spec fn passphrase_blamed(causes: Seq<Cause>, has_passphrase: bool) -> bool {
    exists|i: int|
        0 <= i < causes.len() && blames_passphrase((#[trigger] causes[i]).kind, has_passphrase)
}

/// `shown` is how a failure is shown.
pub open spec fn is_classified(
    causes: Seq<Cause>,
    has_passphrase: bool,
    shown: ConnectError,
) -> bool {
    if passphrase_blamed(causes, has_passphrase) {
        shown matches ConnectError::Passphrase(message) && message@ == causes.last().message@
    } else {
        shown matches ConnectError::General(message) && message@ == causes[0].message@
    }
}

/// How a failure is shown: beside the passphrase field with the root cause, or
/// in the banner with the outermost message.
pub fn classify_connect_error(has_passphrase: bool, error: &SessionError) -> (shown: ConnectError)
    requires
        error.wf(),
    ensures
        is_classified(error@, has_passphrase, shown),
{
    let causes = error.causes();
    let mut i: usize = 0;
    while i < causes.len()
        invariant
            i <= causes@.len(),
            causes@ == error@,
            error.wf(),
            forall|k: int|
                0 <= k < i ==> !blames_passphrase((#[trigger] causes@[k]).kind, has_passphrase),
        decreases causes@.len() - i,
    {
        let blamed: bool = match causes[i].kind {
            CauseKind::KeyEncrypted => true,
            CauseKind::Key => has_passphrase,
            _ => false,
        };
        if blamed {
            assert(blames_passphrase(error@[i as int].kind, has_passphrase));
            return ConnectError::Passphrase(error.root_cause().to_owned());
        }
        i = i + 1;
    }
    ConnectError::General(error.outermost().to_owned())
}

/// Putting a message in front of a failure changes neither whether it is
/// retried nor what it blames, nor its root cause.
pub proof fn law_context_keeps_nature(
    causes: Seq<Cause>,
    wrapped: Seq<Cause>,
    message: String,
    has_passphrase: bool,
)
    requires
        causes.len() > 0,
        wrapped == seq![Cause { kind: CauseKind::Untyped, message }] + causes,
    ensures
        has_transport_cause(wrapped) == has_transport_cause(causes),
        passphrase_blamed(wrapped, has_passphrase) == passphrase_blamed(causes, has_passphrase),
        wrapped.last() == causes.last(),
{
    assert forall|i: int| 0 <= i < causes.len() implies wrapped[i + 1] == #[trigger] causes[i] by {}
    if has_transport_cause(causes) {
        let i = choose|i: int| 0 <= i < causes.len() && transport_shaped((#[trigger] causes[i]).kind);
        assert(transport_shaped(wrapped[i + 1].kind));
    }
    if has_transport_cause(wrapped) {
        let i = choose|i: int|
            0 <= i < wrapped.len() && transport_shaped((#[trigger] wrapped[i]).kind);
        assert(transport_shaped(causes[i - 1].kind));
    }
    if passphrase_blamed(causes, has_passphrase) {
        let i = choose|i: int|
            0 <= i < causes.len() && blames_passphrase((#[trigger] causes[i]).kind, has_passphrase);
        assert(blames_passphrase(wrapped[i + 1].kind, has_passphrase));
    }
    if passphrase_blamed(wrapped, has_passphrase) {
        let i = choose|i: int|
            0 <= i < wrapped.len() && blames_passphrase(
                (#[trigger] wrapped[i]).kind,
                has_passphrase,
            );
        assert(blames_passphrase(causes[i - 1].kind, has_passphrase));
    }
}

// ---------------------------------------------------------------------------
// Engine
// ---------------------------------------------------------------------------

/// Where the engine is.
#[derive(Clone, Copy, Debug, PartialEq, Eq, Structural)]
pub enum Phase {
    /// An attempt runs.
    Attempting,
    /// The engine waits before the next attempt.
    Waiting,
    /// The engine is done.
    Ended,
}

/// How a wait ended.
#[derive(Clone, Copy, Debug, PartialEq, Eq, Structural)]
pub enum WaitOutcome {
    /// The user canceled.
    Canceled,
    /// The delay is over.
    TimedOut,
    /// The window is gone.
    Disconnected,
}

/// What the engine does after an attempt.
#[derive(Debug, PartialEq, Eq)]
pub enum AfterAttempt {
    /// Shows the retry and waits.
    Wait { retry: u32 },
    /// Ends, with a reason to show or none.
    End { reason: Option<ConnectError> },
}

/// What is told to the rest of the shell.
#[derive(Debug, PartialEq, Eq)]
pub enum EngineReport {
    Status(ConnectionStatus),
    SessionEnded(Option<ConnectError>),
}

/// The retry count of the next wait: an attempt that was fully up starts a new
/// outage.
pub open spec fn next_retry(retry: u32, connected: bool) -> u32 {
    let base = if connected {
        0u32
    } else {
        retry
    };
    if base < u32::MAX {
        (base + 1) as u32
    } else {
        u32::MAX
    }
}

/// The engine that runs one attempt after another until the session ends in
/// order, fails for good, or is given up.
#[derive(Debug)]
pub struct ReconnectEngine {
    retry: u32,
    phase: Phase,
}

/// What a [`ReconnectEngine`] holds.
pub struct EngineView {
    pub retry: u32,
    pub phase: Phase,
}

impl View for ReconnectEngine {
    type V = EngineView;

    closed spec fn view(&self) -> EngineView {
        EngineView { retry: self.retry, phase: self.phase }
    }
}

/// The engine after its last attempt.
pub open spec fn ended(engine: EngineView, connected: bool) -> EngineView {
    EngineView {
        retry: if connected {
            0
        } else {
            engine.retry
        },
        phase: Phase::Ended,
    }
}

impl ReconnectEngine {
    /// An engine at its first attempt.
    pub fn new() -> (engine: Self)
        ensures
            engine@ == (EngineView { retry: 0, phase: Phase::Attempting }),
    {
        ReconnectEngine { retry: 0, phase: Phase::Attempting }
    }

    /// Where the engine is.
    pub fn phase(&self) -> (phase: Phase)
        ensures
            phase == self@.phase,
    {
        self.phase
    }

    /// The retries of this outage so far.
    pub fn retry(&self) -> (retry: u32)
        ensures
            retry == self@.retry,
    {
        self.retry
    }

    /// An attempt ended; `connected` tells whether it was fully up before that.
    /// The flag returned tells whether the delays start over and a cancel that
    /// came too late is dropped.
    ///
    /// A session that ended in order is not tried again. Neither is one that
    /// failed for another reason than a dead transport, and then the reason is
    /// shown. A dead transport is always tried again.
    pub fn attempt_ended(
        &mut self,
        connected: bool,
        result: Result<(), SessionError>,
        has_passphrase: bool,
    ) -> (next: (bool, AfterAttempt))
        requires
            old(self)@.phase == Phase::Attempting,
            result matches Err(error) ==> error.wf(),
        ensures
            next.0 == connected,
            match result {
                Ok(_) => {
                    &&& next.1 == (AfterAttempt::End { reason: None })
                    &&& final(self)@ == ended(old(self)@, connected)
                },
                Err(error) => if has_transport_cause(error@) {
                    let retry = next_retry(old(self)@.retry, connected);
                    &&& next.1 == (AfterAttempt::Wait { retry })
                    &&& final(self)@ == (EngineView { retry, phase: Phase::Waiting })
                } else {
                    &&& next.1 matches AfterAttempt::End { reason: Some(shown) } && is_classified(
                        error@,
                        has_passphrase,
                        shown,
                    )
                    &&& final(self)@ == ended(old(self)@, connected)
                },
            },
    {
        if connected {
            self.retry = 0;
        }
        match result {
            Ok(()) => {
                self.phase = Phase::Ended;
                (connected, AfterAttempt::End { reason: None })
            },
            Err(error) => {
                if !is_retryable_session_error(&error) {
                    self.phase = Phase::Ended;
                    let reason = Some(classify_connect_error(has_passphrase, &error));
                    return (connected, AfterAttempt::End { reason });
                }
                self.retry = self.retry.saturating_add(1);
                self.phase = Phase::Waiting;
                (connected, AfterAttempt::Wait { retry: self.retry })
            },
        }
    }

    /// A wait ended. Tells whether the next attempt runs; otherwise the engine
    /// is done, with no reason to show.
    pub fn wait_ended(&mut self, outcome: WaitOutcome) -> (again: bool)
        requires
            old(self)@.phase == Phase::Waiting,
        ensures
            again == (outcome == WaitOutcome::TimedOut),
            final(self)@ == (EngineView {
                phase: if again {
                    Phase::Attempting
                } else {
                    Phase::Ended
                },
                ..old(self)@
            }),
    {
        match outcome {
            WaitOutcome::TimedOut => {
                self.phase = Phase::Attempting;
                true
            },
            WaitOutcome::Canceled => {
                self.phase = Phase::Ended;
                false
            },
            WaitOutcome::Disconnected => {
                self.phase = Phase::Ended;
                false
            },
        }
    }
}

/// What is told while the engine waits.
pub fn retry_report(retry: u32) -> (report: EngineReport)
    ensures
        report == EngineReport::Status(ConnectionStatus::SshReconnecting { retry }),
{
    EngineReport::Status(ConnectionStatus::SshReconnecting { retry })
}

/// What is told when the engine is done, in this order: the reason, then that
/// the connection is gone.
pub fn end_reports(reason: Option<ConnectError>) -> (reports: Vec<EngineReport>)
    ensures
        reports@ == seq![
            EngineReport::SessionEnded(reason),
            EngineReport::Status(ConnectionStatus::Disconnected),
        ],
{
    let mut reports: Vec<EngineReport> = Vec::new();
    reports.push(EngineReport::SessionEnded(reason));
    reports.push(EngineReport::Status(ConnectionStatus::Disconnected));
    assert(reports@ =~= seq![
        EngineReport::SessionEnded(reason),
        EngineReport::Status(ConnectionStatus::Disconnected),
    ]);
    reports
}

/// The retry count after a history of dead transports, each told by whether
/// its attempt was fully up before.
pub open spec fn retries_after(start: u32, history: Seq<bool>) -> u32
    decreases history.len(),
{
    if history.len() == 0 {
        start
    } else {
        next_retry(retries_after(start, history.drop_last()), history.last())
    }
}

/// Attempts that fail one after another are counted one by one, up to the
/// largest number there is.
pub proof fn law_retries_count_up(start: u32, history: Seq<bool>)
    requires
        forall|i: int| 0 <= i < history.len() ==> !history[i],
    ensures
        retries_after(start, history) == if start + history.len() <= u32::MAX {
            start + history.len()
        } else {
            u32::MAX as int
        },
    decreases history.len(),
{
    if history.len() > 0 {
        law_retries_count_up(start, history.drop_last());
    }
}

/// A session that was up starts the count over, whatever came before.
pub proof fn law_connection_restarts_count(start: u32, history: Seq<bool>)
    requires
        history.len() > 0,
        history.last(),
    ensures
        retries_after(start, history) == 1,
{
}

// ---------------------------------------------------------------------------
// Backlog
// ---------------------------------------------------------------------------

/// The receiving end of a channel of the `flume` crate.
#[verifier::external_type_specification]
#[verifier::external_body]
#[verifier::reject_recursive_types(T)]
pub struct ExReceiver<T>(flume::Receiver<T>);

/// `flume::Receiver::drain`: takes every message that waits in the channel,
/// oldest first. Which ones those are is up to the threads that send, so
/// nothing is said of them.
#[verifier::external_body]
fn drained<T>(queue: &flume::Receiver<T>) -> Vec<T> {
    queue.drain().collect()
}

fn taken_by<T, F: Fn(&flume::Receiver<T>) -> Vec<T>>(
    take: F,
    queue: &flume::Receiver<T>,
) -> (taken: Vec<T>)
    requires
        call_requires(take, (queue,)),
    ensures
        call_ensures(take, (queue,), taken),
{
    take(queue)
}

/// The queues that the terminal's render layer fills.
pub struct PtyChannels {
    pub input_rx: flume::Receiver<PaneInput>,
    pub size_changed_rx: flume::Receiver<TermSize>,
    pub tmux_command_rx: flume::Receiver<String>,
    pub capture_request_rx: flume::Receiver<CaptureRequest>,
    pub key_table_request_rx: flume::Receiver<()>,
    pub session_list_request_rx: flume::Receiver<()>,
    pub session_switch_rx: flume::Receiver<SessionSwitchRequest>,
}

/// The queues that the editor and the panels fill. `P` stands for a request that
/// is passed on as it is.
#[verifier::reject_recursive_types(P)]
pub struct EditorChannels<P> {
    pub open_file_rx: flume::Receiver<String>,
    pub save_file_rx: flume::Receiver<P>,
    pub buffer_change_rx: flume::Receiver<P>,
    pub nav_request_rx: flume::Receiver<P>,
    pub request_diff_rx: flume::Receiver<String>,
    pub git_op_rx: flume::Receiver<P>,
    pub file_op_rx: flume::Receiver<P>,
}

/// The grid to remember after the sizes of a backlog: the last one of them, or
/// the one that was known where there is none.
pub open spec fn grid_after(known: Option<TermSize>, sizes: Seq<TermSize>) -> Option<TermSize> {
    if sizes.len() > 0 {
        Some(sizes.last())
    } else {
        known
    }
}

/// What waited in the queues while no session was up, queue by queue.
#[verifier::reject_recursive_types(P)]
pub struct Backlog<P> {
    pub sizes: Vec<TermSize>,
    pub inputs: Vec<PaneInput>,
    pub commands: Vec<String>,
    pub captures: Vec<CaptureRequest>,
    pub key_table_requests: Vec<()>,
    pub session_list_requests: Vec<()>,
    pub switches: Vec<SessionSwitchRequest>,
    pub opened: Vec<String>,
    pub saved: Vec<P>,
    pub buffer_changes: Vec<P>,
    pub nav_requests: Vec<P>,
    pub diff_requests: Vec<String>,
    pub git_ops: Vec<P>,
    pub file_ops: Vec<P>,
}

/// The backlog was taken out of the queues: each of its lists is what draining
/// the queue of that name gave.
pub closed spec fn taken_from<P>(
    backlog: Backlog<P>,
    ch: PtyChannels,
    editor: EditorChannels<P>,
) -> bool {
    &&& call_ensures(drained::<TermSize>, (&ch.size_changed_rx,), backlog.sizes)
    &&& call_ensures(drained::<PaneInput>, (&ch.input_rx,), backlog.inputs)
    &&& call_ensures(drained::<String>, (&ch.tmux_command_rx,), backlog.commands)
    &&& call_ensures(drained::<CaptureRequest>, (&ch.capture_request_rx,), backlog.captures)
    &&& call_ensures(drained::<()>, (&ch.key_table_request_rx,), backlog.key_table_requests)
    &&& call_ensures(drained::<()>, (&ch.session_list_request_rx,), backlog.session_list_requests)
    &&& call_ensures(drained::<SessionSwitchRequest>, (&ch.session_switch_rx,), backlog.switches)
    &&& call_ensures(drained::<String>, (&editor.open_file_rx,), backlog.opened)
    &&& call_ensures(drained::<P>, (&editor.save_file_rx,), backlog.saved)
    &&& call_ensures(drained::<P>, (&editor.buffer_change_rx,), backlog.buffer_changes)
    &&& call_ensures(drained::<P>, (&editor.nav_request_rx,), backlog.nav_requests)
    &&& call_ensures(drained::<String>, (&editor.request_diff_rx,), backlog.diff_requests)
    &&& call_ensures(drained::<P>, (&editor.git_op_rx,), backlog.git_ops)
    &&& call_ensures(drained::<P>, (&editor.file_op_rx,), backlog.file_ops)
}

/// How many messages of a backlog are dropped: all but the sizes.
pub open spec fn dropped_count<P>(backlog: Backlog<P>) -> nat {
    backlog.inputs@.len()
        + backlog.commands@.len()
        + backlog.captures@.len()
        + backlog.key_table_requests@.len()
        + backlog.session_list_requests@.len()
        + backlog.switches@.len()
        + backlog.opened@.len()
        + backlog.saved@.len()
        + backlog.buffer_changes@.len()
        + backlog.nav_requests@.len()
        + backlog.diff_requests@.len()
        + backlog.git_ops@.len()
        + backlog.file_ops@.len()
}

/// Drops a backlog and tells how many messages that were. Of the sizes the last
/// one is remembered. A session switch among the dropped messages never
/// happened.
pub fn drop_backlog<P>(backlog: Backlog<P>, watches: &mut EngineWatches) -> (dropped: u128)
    ensures
        dropped == dropped_count(backlog),
        *final(watches) == (EngineWatches {
            viewport: grid_after(old(watches).viewport, backlog.sizes@),
            ..*old(watches)
        }),
{
    if backlog.sizes.len() > 0 {
        watches.viewport = Some(backlog.sizes[backlog.sizes.len() - 1]);
    }
    backlog.inputs.len() as u128
        + backlog.commands.len() as u128
        + backlog.captures.len() as u128
        + backlog.key_table_requests.len() as u128
        + backlog.session_list_requests.len() as u128
        + backlog.switches.len() as u128
        + backlog.opened.len() as u128
        + backlog.saved.len() as u128
        + backlog.buffer_changes.len() as u128
        + backlog.nav_requests.len() as u128
        + backlog.diff_requests.len() as u128
        + backlog.git_ops.len() as u128
        + backlog.file_ops.len() as u128
}

/// Empties every queue that filled while no session was up, so that nothing
/// stale reaches the next one, and tells how many messages were dropped. Only
/// the last grid is kept.
///
/// Every queue is drained. What waits in one is up to the threads that send, so
/// the contract says neither what the backlog holds nor that the queues are
/// empty afterwards: a message may come in behind the drain.
pub fn drain_render_backlog<P>(
    ch: &PtyChannels,
    editor: &EditorChannels<P>,
    watches: &mut EngineWatches,
) -> (dropped: u128)
    ensures
        exists|backlog: Backlog<P>| #[trigger]
            taken_from(backlog, *ch, *editor) && dropped_count(backlog) == dropped
                && *final(watches) == (EngineWatches {
                viewport: grid_after(old(watches).viewport, backlog.sizes@),
                ..*old(watches)
            }),
{
    let backlog = Backlog {
        sizes: taken_by(drained::<TermSize>, &ch.size_changed_rx),
        inputs: taken_by(drained::<PaneInput>, &ch.input_rx),
        commands: taken_by(drained::<String>, &ch.tmux_command_rx),
        captures: taken_by(drained::<CaptureRequest>, &ch.capture_request_rx),
        key_table_requests: taken_by(drained::<()>, &ch.key_table_request_rx),
        session_list_requests: taken_by(drained::<()>, &ch.session_list_request_rx),
        switches: taken_by(drained::<SessionSwitchRequest>, &ch.session_switch_rx),
        opened: taken_by(drained::<String>, &editor.open_file_rx),
        saved: taken_by(drained::<P>, &editor.save_file_rx),
        buffer_changes: taken_by(drained::<P>, &editor.buffer_change_rx),
        nav_requests: taken_by(drained::<P>, &editor.nav_request_rx),
        diff_requests: taken_by(drained::<String>, &editor.request_diff_rx),
        git_ops: taken_by(drained::<P>, &editor.git_op_rx),
        file_ops: taken_by(drained::<P>, &editor.file_op_rx),
    };
    let ghost taken = backlog;
    let dropped = drop_backlog(backlog, watches);
    assert(taken_from(taken, *ch, *editor) && dropped_count(taken) == dropped);
    dropped
}

// ---------------------------------------------------------------------------
// Laws of the calls
// ---------------------------------------------------------------------------

/// Trying again helps against a lost connection or channel, and against nothing
/// else.
pub proof fn law_only_the_transport_is_worth_a_retry(kind: CauseKind, retryable: bool)
    requires
        call_ensures(CauseKind::is_retryable, (kind,), retryable),
    ensures
        retryable <==> kind is Connection || kind is Channel,
        kind is Auth || kind is Key || kind is KeyEncrypted || kind is Untyped ==> !retryable,
{
}

/// A failure is tried again where some cause of it is.
pub proof fn law_failure_is_retried_for_one_of_its_causes(
    error: SessionError,
    retryable: bool,
    i: int,
    alone: bool,
)
    requires
        call_ensures(is_retryable_session_error, (&error,), retryable),
        0 <= i < error@.len(),
        call_ensures(CauseKind::is_retryable, (error@[i].kind,), alone),
    ensures
        alone ==> retryable,
        (forall|k: int|
            0 <= k < error@.len() ==> !((#[trigger] error@[k]).kind is Connection)
                && !(error@[k].kind is Channel)) ==> !retryable,
{
    if alone {
        assert(transport_shaped(error@[i].kind));
    }
}

/// A message put in front of a failure becomes the outermost one; the root cause
/// stays.
pub proof fn law_context_goes_in_front(
    error: SessionError,
    message: String,
    wrapped: SessionError,
    outermost: &str,
    root: &str,
    inner_root: &str,
)
    requires
        error.wf(),
        call_ensures(SessionError::context, (error, message), wrapped),
        call_ensures(SessionError::outermost, (&wrapped,), outermost),
        call_ensures(SessionError::root_cause, (&wrapped,), root),
        call_ensures(SessionError::root_cause, (&error,), inner_root),
    ensures
        outermost@ == message@,
        root@ == inner_root@,
        wrapped@.len() == error@.len() + 1,
        wrapped@[0].kind is Untyped,
        forall|i: int| 0 <= i < error@.len() ==> #[trigger] wrapped@[i + 1] == error@[i],
{
}

/// A failure with one cause has that cause at both ends, and a message alone is
/// never tried again.
pub proof fn law_single_cause(
    cause: Cause,
    made: SessionError,
    message: String,
    told: SessionError,
    outermost: &str,
    root: &str,
    retryable: bool,
)
    requires
        call_ensures(SessionError::new, (cause,), made),
        call_ensures(SessionError::msg, (message,), told),
        call_ensures(SessionError::outermost, (&made,), outermost),
        call_ensures(SessionError::root_cause, (&made,), root),
        call_ensures(is_retryable_session_error, (&told,), retryable),
    ensures
        made@.len() == 1 && made@[0] == cause,
        outermost@ == cause.message@ && root@ == cause.message@,
        told@.len() == 1 && told@[0].message@ == message@,
        !retryable,
{
}

/// A chain makes a failure unless it is empty.
pub proof fn law_chain_makes_a_failure(causes: Vec<Cause>, error: Option<SessionError>)
    requires
        call_ensures(SessionError::from_causes, (causes,), error),
    ensures
        error is None <==> causes@.len() == 0,
        error matches Some(e) ==> e@ == causes@,
{
}

/// A failure goes beside the passphrase field, with its root cause, where the
/// key is locked, or cannot be read although a passphrase was given. Otherwise
/// it goes into the banner, with its outermost message.
pub proof fn law_passphrase_is_blamed(
    has_passphrase: bool,
    error: SessionError,
    shown: ConnectError,
    outermost: &str,
    root: &str,
)
    requires
        error.wf(),
        call_ensures(classify_connect_error, (has_passphrase, &error), shown),
        call_ensures(SessionError::outermost, (&error,), outermost),
        call_ensures(SessionError::root_cause, (&error,), root),
    ensures
        forall|i: int|
            0 <= i < error@.len() && ((#[trigger] error@[i]).kind is KeyEncrypted || (
            error@[i].kind is Key && has_passphrase)) ==> shown is Passphrase,
        shown is Passphrase ==> exists|i: int|
            0 <= i < error@.len() && ((#[trigger] error@[i]).kind is KeyEncrypted || (
            error@[i].kind is Key && has_passphrase)),
        shown matches ConnectError::Passphrase(message) ==> message@ == root@,
        shown matches ConnectError::General(message) ==> message@ == outermost@,
{
    assert forall|i: int|
        0 <= i < error@.len() && ((#[trigger] error@[i]).kind is KeyEncrypted || (
        error@[i].kind is Key && has_passphrase)) implies shown is Passphrase by {
        assert(blames_passphrase(error@[i].kind, has_passphrase));
    }
    if shown is Passphrase {
        let i = choose|i: int|
            0 <= i < error@.len() && blames_passphrase((#[trigger] error@[i]).kind, has_passphrase);
        assert(error@[i].kind is KeyEncrypted || (error@[i].kind is Key && has_passphrase));
    }
}

/// A session that ends in order ends the engine with nothing to show. One that
/// fails ends it with the reason, unless the transport died: then the engine
/// waits and counts, from one again after a session that was up.
pub proof fn law_engine_retries_a_dead_transport(
    engine: &mut ReconnectEngine,
    connected: bool,
    result: Result<(), SessionError>,
    has_passphrase: bool,
    next: (bool, AfterAttempt),
    retryable: bool,
    shown: ConnectError,
)
    requires
        call_ensures(
            ReconnectEngine::attempt_ended,
            (engine, connected, result, has_passphrase),
            next,
        ),
        result is Err ==> call_ensures(is_retryable_session_error, (&result->Err_0,), retryable),
        result is Err ==> call_ensures(
            classify_connect_error,
            (has_passphrase, &result->Err_0),
            shown,
        ),
    ensures
        next.0 == connected,
        result is Ok ==> next.1 == (AfterAttempt::End { reason: None }) && final(engine)@.phase
            is Ended,
        result is Err && retryable ==> final(engine)@.phase is Waiting && (
        next.1 matches AfterAttempt::Wait { retry } && retry == final(engine)@.retry && {
            &&& connected ==> retry == 1
            &&& !connected && old(engine)@.retry < u32::MAX ==> retry == old(engine)@.retry + 1
            &&& !connected && old(engine)@.retry == u32::MAX ==> retry == u32::MAX
        }),
        result is Err && !retryable ==> final(engine)@.phase is Ended && (
        next.1 matches AfterAttempt::End { reason: Some(told) } && match (told, shown) {
            (ConnectError::Passphrase(a), ConnectError::Passphrase(b)) => a@ == b@,
            (ConnectError::General(a), ConnectError::General(b)) => a@ == b@,
            _ => false,
        }),
        final(engine)@.phase is Ended ==> final(engine)@.retry == if connected {
            0
        } else {
            old(engine)@.retry
        },
{
}

/// A wait that runs out leads to the next attempt; one that is cut short ends
/// the engine. The count stays.
pub proof fn law_wait_leads_to_the_next_attempt(
    engine: &mut ReconnectEngine,
    outcome: WaitOutcome,
    again: bool,
    fresh: ReconnectEngine,
)
    requires
        call_ensures(ReconnectEngine::wait_ended, (engine, outcome), again),
        call_ensures(ReconnectEngine::new, (), fresh),
    ensures
        again <==> outcome is TimedOut,
        again ==> final(engine)@.phase is Attempting,
        !again ==> final(engine)@.phase is Ended,
        final(engine)@.retry == old(engine)@.retry,
        fresh@.phase is Attempting && fresh@.retry == 0,
{
}

/// While it waits, the engine tells which retry is due; at its end it tells the
/// reason first and then that the connection is gone.
pub proof fn law_engine_tells_what_happens(
    retry: u32,
    report: EngineReport,
    reason: Option<ConnectError>,
    reports: Vec<EngineReport>,
)
    requires
        call_ensures(retry_report, (retry,), report),
        call_ensures(end_reports, (reason,), reports),
    ensures
        report matches EngineReport::Status(ConnectionStatus::SshReconnecting { retry: told })
            && told == retry,
        reports@.len() == 2,
        reports@[0] matches EngineReport::SessionEnded(told) && told == reason,
        reports@[1] == EngineReport::Status(ConnectionStatus::Disconnected),
{
}

/// Every waiting message but the sizes counts as dropped, and the last size is
/// the one that is remembered; the session to come back to stays.
pub proof fn law_backlog_is_dropped_but_for_the_grid<P>(
    backlog: Backlog<P>,
    watches: &mut EngineWatches,
    dropped: u128,
)
    requires
        call_ensures(drop_backlog::<P>, (backlog, watches), dropped),
    ensures
        backlog.sizes@.len() > 0 ==> final(watches).viewport == Some(backlog.sizes@.last()),
        backlog.sizes@.len() == 0 ==> final(watches).viewport == old(watches).viewport,
        *final(watches) == (EngineWatches { viewport: final(watches).viewport, ..*old(watches) }),
        dropped >= backlog.inputs@.len() + backlog.commands@.len() + backlog.captures@.len()
            + backlog.key_table_requests@.len() + backlog.session_list_requests@.len()
            + backlog.switches@.len(),
        dropped - (backlog.inputs@.len() + backlog.commands@.len() + backlog.captures@.len()
            + backlog.key_table_requests@.len() + backlog.session_list_requests@.len()
            + backlog.switches@.len()) == backlog.opened@.len() + backlog.saved@.len()
            + backlog.buffer_changes@.len() + backlog.nav_requests@.len()
            + backlog.diff_requests@.len() + backlog.git_ops@.len() + backlog.file_ops@.len(),
{
}

/// Draining `queue` gave `list`.
pub closed spec fn drain_gave<T>(queue: flume::Receiver<T>, list: Vec<T>) -> bool {
    call_ensures(drained::<T>, (&queue,), list)
}

/// The backlog holds what draining gave, each queue in the list of what it
/// carries.
pub open spec fn holds_every_queue<P>(
    backlog: Backlog<P>,
    ch: PtyChannels,
    editor: EditorChannels<P>,
) -> bool {
    &&& drain_gave(ch.size_changed_rx, backlog.sizes)
    &&& drain_gave(ch.input_rx, backlog.inputs)
    &&& drain_gave(ch.tmux_command_rx, backlog.commands)
    &&& drain_gave(ch.capture_request_rx, backlog.captures)
    &&& drain_gave(ch.key_table_request_rx, backlog.key_table_requests)
    &&& drain_gave(ch.session_list_request_rx, backlog.session_list_requests)
    &&& drain_gave(ch.session_switch_rx, backlog.switches)
    &&& drain_gave(editor.open_file_rx, backlog.opened)
    &&& drain_gave(editor.save_file_rx, backlog.saved)
    &&& drain_gave(editor.buffer_change_rx, backlog.buffer_changes)
    &&& drain_gave(editor.nav_request_rx, backlog.nav_requests)
    &&& drain_gave(editor.request_diff_rx, backlog.diff_requests)
    &&& drain_gave(editor.git_op_rx, backlog.git_ops)
    &&& drain_gave(editor.file_op_rx, backlog.file_ops)
}

/// How many messages a backlog holds beside the sizes.
pub open spec fn message_count<P>(backlog: Backlog<P>) -> nat {
    backlog.inputs@.len() + backlog.commands@.len() + backlog.captures@.len()
        + backlog.key_table_requests@.len() + backlog.session_list_requests@.len()
        + backlog.switches@.len() + backlog.opened@.len() + backlog.saved@.len()
        + backlog.buffer_changes@.len() + backlog.nav_requests@.len()
        + backlog.diff_requests@.len() + backlog.git_ops@.len() + backlog.file_ops@.len()
}

/// Every queue is drained, the messages are counted, and the last size is the
/// one that is remembered.
pub proof fn law_every_queue_is_drained<P>(
    ch: PtyChannels,
    editor: EditorChannels<P>,
    watches: &mut EngineWatches,
    dropped: u128,
)
    requires
        call_ensures(drain_render_backlog::<P>, (&ch, &editor, watches), dropped),
    ensures
        exists|backlog: Backlog<P>| #[trigger]
            holds_every_queue(backlog, ch, editor) && dropped == message_count(backlog) && (
            backlog.sizes@.len() > 0 ==> final(watches).viewport == Some(backlog.sizes@.last()))
                && (backlog.sizes@.len() == 0 ==> final(watches).viewport == old(watches).viewport),
        *final(watches) == (EngineWatches { viewport: final(watches).viewport, ..*old(watches) }),
{
    let backlog = choose|backlog: Backlog<P>| #[trigger]
        taken_from(backlog, ch, editor) && dropped_count(backlog) == dropped && *final(watches) == (
        EngineWatches {
            viewport: grid_after(old(watches).viewport, backlog.sizes@),
            ..*old(watches)
        });
    assert(holds_every_queue(backlog, ch, editor));
}

} // verus!
