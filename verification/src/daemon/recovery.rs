//! Recovering a daemon stream that died while SSH is up, and choosing where the
//! terminal's bytes come from.

use vstd::prelude::*;

use crate::daemon::provision;
use crate::daemon::provision::HandshakeReply;
use crate::session;
use crate::session::{Cause, CauseKind, SessionError};
use crate::text;

verus! {

/// The attempts after which recovery gives up.
pub const DAEMON_RECONNECT_MAX_ATTEMPTS: u32 = 10;

// ---------------------------------------------------------------------------
// Recovery
// ---------------------------------------------------------------------------

/// Why an attempt to recover failed.
#[derive(Debug, PartialEq, Eq)]
pub enum ReconnectFailure {
    /// Another client replaced the daemon by one of another version. Trying
    /// again cannot help.
    VersionMismatch { daemon: u32 },
    /// The transport failed. Trying again can help.
    Transient(Cause),
}

/// What an answer to the greeting means for an attempt; nothing where it can go
/// on.
pub fn handshake_failure(reply: HandshakeReply) -> (failure: Option<ReconnectFailure>)
    ensures
        failure == match reply {
            HandshakeReply::Ready => None,
            HandshakeReply::VersionMismatch { daemon } => Some(
                ReconnectFailure::VersionMismatch { daemon },
            ),
            HandshakeReply::Failed(cause) => Some(ReconnectFailure::Transient(cause)),
        },
{
    match reply {
        HandshakeReply::Ready => None,
        HandshakeReply::VersionMismatch { daemon } => Some(
            ReconnectFailure::VersionMismatch { daemon },
        ),
        HandshakeReply::Failed(cause) => Some(ReconnectFailure::Transient(cause)),
    }
}

/// Where one attempt stands.
#[derive(Clone, Copy, Debug, PartialEq, Eq, Structural)]
pub enum AttemptStep {
    /// Reaching the daemon, or starting one.
    Connect,
    /// Greeting it.
    Handshake,
    /// Attaching the session.
    Attach,
    /// Asserting the grid.
    Resize,
    /// The daemon is back.
    Done,
}

/// What came of a step of an attempt.
#[derive(Debug, PartialEq, Eq)]
pub enum AttemptEvent {
    /// The daemon was reached, or a request was sent.
    Succeeded,
    /// The daemon was not reached, or a request was not sent.
    Failed(Cause),
    /// The daemon answered the greeting.
    Answered(HandshakeReply),
}

/// The event tells of the step.
pub open spec fn tells_of(step: AttemptStep, event: AttemptEvent) -> bool {
    match step {
        AttemptStep::Handshake => event is Answered,
        AttemptStep::Done => false,
        _ => !(event is Answered),
    }
}

/// The step that follows one that succeeded. The grid is asserted strictly
/// after the attach, and only where it is known.
pub open spec fn following(step: AttemptStep, grid_known: bool) -> AttemptStep {
    match step {
        AttemptStep::Connect => AttemptStep::Handshake,
        AttemptStep::Handshake => AttemptStep::Attach,
        AttemptStep::Attach => if grid_known {
            AttemptStep::Resize
        } else {
            AttemptStep::Done
        },
        AttemptStep::Resize | AttemptStep::Done => AttemptStep::Done,
    }
}

/// What follows a step of an attempt: the next step, or why the attempt failed.
pub fn attempt_step(step: AttemptStep, grid_known: bool, event: AttemptEvent) -> (next: Result<
    AttemptStep,
    ReconnectFailure,
>)
    requires
        tells_of(step, event),
    ensures
        next == match event {
            AttemptEvent::Succeeded => Ok(following(step, grid_known)),
            AttemptEvent::Failed(cause) => Err(ReconnectFailure::Transient(cause)),
            AttemptEvent::Answered(HandshakeReply::Ready) => Ok(following(step, grid_known)),
            AttemptEvent::Answered(HandshakeReply::VersionMismatch { daemon }) => Err(
                ReconnectFailure::VersionMismatch { daemon },
            ),
            AttemptEvent::Answered(HandshakeReply::Failed(cause)) => Err(
                ReconnectFailure::Transient(cause),
            ),
        },
{
    match event {
        AttemptEvent::Failed(cause) => Err(ReconnectFailure::Transient(cause)),
        AttemptEvent::Answered(reply) => match handshake_failure(reply) {
            Some(failure) => Err(failure),
            None => Ok(AttemptStep::Attach),
        },
        AttemptEvent::Succeeded => match step {
            AttemptStep::Connect => Ok(AttemptStep::Handshake),
            AttemptStep::Attach => if grid_known {
                Ok(AttemptStep::Resize)
            } else {
                Ok(AttemptStep::Done)
            },
            _ => Ok(AttemptStep::Done),
        },
    }
}

/// The message of a version change in the middle of a session.
pub open spec fn version_change_text(client: u32, daemon: u32) -> Seq<char> {
    "daemon protocol version changed mid-session (client v"@ + text::decimal_text(client as nat)
        + ", daemon v"@ + text::decimal_text(daemon as nat)
        + "); a newer client replaced the daemon"@
}

/// `causes` tells of a version change.
pub open spec fn tells_version_change(causes: Seq<Cause>, client: u32, daemon: u32) -> bool {
    &&& causes.len() == 1
    &&& causes[0].kind == CauseKind::Untyped
    &&& causes[0].message@ == version_change_text(client, daemon)
}

/// `causes` tells that recovery gave up after `last`.
pub open spec fn tells_give_up(causes: Seq<Cause>, last: Cause) -> bool {
    &&& causes.len() == 2
    &&& causes[0].kind == CauseKind::Untyped
    &&& causes[0].message@ == "daemon stream reconnect gave up after 10 attempts"@
    &&& causes[1] == last
}

/// `causes` tells that SSH itself is down.
pub open spec fn tells_closed_transport(causes: Seq<Cause>) -> bool {
    &&& causes.len() == 2
    &&& causes[0].kind == CauseKind::Untyped
    &&& causes[0].message@ == "daemon stream reconnect aborted"@
    &&& causes[1].kind == CauseKind::Connection
    &&& causes[1].message@ == "SSH transport closed"@
}

/// A recovery: the attempt that is due.
#[derive(Debug)]
pub struct DaemonRecovery {
    attempt: u32,
}

impl View for DaemonRecovery {
    type V = u32;

    closed spec fn view(&self) -> u32 {
        self.attempt
    }
}

impl DaemonRecovery {
    /// There are no more attempts than allowed.
    pub open spec fn wf(&self) -> bool {
        1 <= self@ <= DAEMON_RECONNECT_MAX_ATTEMPTS
    }

    /// The first attempt is due.
    pub fn new() -> (recovery: Self)
        ensures
            recovery.wf(),
            recovery@ == 1,
    {
        DaemonRecovery { attempt: 1 }
    }

    /// The attempt that is due.
    pub fn attempt(&self) -> (attempt: u32)
        ensures
            attempt == self@,
    {
        self.attempt
    }

    /// Whether the attempt waits first. The first one does not.
    pub fn waits(&self) -> (waits: bool)
        ensures
            waits == (self@ > 1),
    {
        self.attempt > 1
    }

    /// What ends recovery before an attempt where SSH itself is down.
    pub fn before_attempt(&self, transport_closed: bool) -> (error: Option<SessionError>)
        ensures
            error is Some <==> transport_closed,
            error matches Some(e) ==> e.wf() && tells_closed_transport(e@),
    {
        if transport_closed {
            let closed = Cause {
                kind: CauseKind::Connection,
                message: "SSH transport closed".to_owned(),
            };
            Some(
                SessionError::new(closed).context("daemon stream reconnect aborted".to_owned()),
            )
        } else {
            None
        }
    }

    /// An attempt failed. Another version ends recovery, and so does the last
    /// attempt, whose cause the error carries on; otherwise the next attempt is
    /// due.
    pub fn attempt_failed(&mut self, failure: ReconnectFailure, client_version: u32) -> (error:
        Option<SessionError>)
        requires
            old(self).wf(),
        ensures
            final(self).wf(),
            match failure {
                ReconnectFailure::VersionMismatch { daemon } => {
                    &&& error matches Some(e) && e.wf() && tells_version_change(
                        e@,
                        client_version,
                        daemon,
                    )
                    &&& final(self)@ == old(self)@
                },
                ReconnectFailure::Transient(cause) => if old(self)@
                    == DAEMON_RECONNECT_MAX_ATTEMPTS {
                    &&& error matches Some(e) && e.wf() && tells_give_up(e@, cause)
                    &&& final(self)@ == old(self)@
                } else {
                    &&& error is None
                    &&& final(self)@ == old(self)@ + 1
                },
            },
    {
        match failure {
            ReconnectFailure::VersionMismatch { daemon } => {
                let mut message = "daemon protocol version changed mid-session (client v".to_owned();
                message.append(text::decimal(client_version as u64).as_str());
                message.append(", daemon v");
                message.append(text::decimal(daemon as u64).as_str());
                message.append("); a newer client replaced the daemon");
                Some(SessionError::msg(message))
            },
            ReconnectFailure::Transient(cause) => {
                if self.attempt == DAEMON_RECONNECT_MAX_ATTEMPTS {
                    Some(
                        SessionError::new(cause).context(
                            "daemon stream reconnect gave up after 10 attempts".to_owned(),
                        ),
                    )
                } else {
                    self.attempt = self.attempt + 1;
                    None
                }
            },
        }
    }
}

// ---------------------------------------------------------------------------
// Laws of recovery
// ---------------------------------------------------------------------------

/// Giving up hands the outage to the SSH engine, which tries again if and only
/// if the last failure was a dead transport.
pub proof fn law_give_up_keeps_cause(causes: Seq<Cause>, last: Cause)
    requires
        tells_give_up(causes, last),
    ensures
        session::has_transport_cause(causes) == session::transport_shaped(last.kind),
{
    if session::transport_shaped(last.kind) {
        assert(session::transport_shaped(causes[1].kind));
    }
    if session::has_transport_cause(causes) {
        let i = choose|i: int|
            0 <= i < causes.len() && session::transport_shaped((#[trigger] causes[i]).kind);
        assert(i == 1);
    }
}

/// A closed SSH transport is always tried again by the SSH engine.
pub proof fn law_closed_transport_is_retried(causes: Seq<Cause>)
    requires
        tells_closed_transport(causes),
    ensures
        session::has_transport_cause(causes),
{
    assert(session::transport_shaped(causes[1].kind));
}

/// A version change is never tried again.
pub proof fn law_version_change_is_final(causes: Seq<Cause>, client: u32, daemon: u32)
    requires
        tells_version_change(causes, client, daemon),
    ensures
        !session::has_transport_cause(causes),
{
}

// ---------------------------------------------------------------------------
// Terminal source
// ---------------------------------------------------------------------------

/// Where the terminal's bytes come from.
#[derive(Clone, Copy, Debug, PartialEq, Eq, Structural)]
pub enum TerminalSource {
    /// The daemon's protocol.
    Daemon,
    /// tmux's control mode, for want of a daemon. The user is told that what
    /// needs the daemon is missing.
    LegacyWithoutDaemon,
    /// tmux's control mode by choice; the daemon serves the rest.
    LegacyBesideDaemon,
    /// tmux's control mode by choice, and no daemon.
    LegacyAlone,
}

/// Whether the terminal's bytes come from the daemon where there is one: unless
/// the setting asks for the legacy path. An empty setting does not.
pub fn use_daemon_terminal(legacy: Option<&str>) -> (daemon: bool)
    ensures
        daemon == !provision::is_set(legacy),
{
    match legacy {
        Some(value) => value.is_empty(),
        None => true,
    }
}

/// Where the terminal's bytes come from.
pub fn terminal_source(legacy: Option<&str>, daemon_ready: bool) -> (source: TerminalSource)
    ensures
        source == match (provision::is_set(legacy), daemon_ready) {
            (false, true) => TerminalSource::Daemon,
            (false, false) => TerminalSource::LegacyWithoutDaemon,
            (true, true) => TerminalSource::LegacyBesideDaemon,
            (true, false) => TerminalSource::LegacyAlone,
        },
{
    if use_daemon_terminal(legacy) {
        if daemon_ready {
            TerminalSource::Daemon
        } else {
            TerminalSource::LegacyWithoutDaemon
        }
    } else if daemon_ready {
        TerminalSource::LegacyBesideDaemon
    } else {
        TerminalSource::LegacyAlone
    }
}

// ---------------------------------------------------------------------------
// Laws of the calls
// ---------------------------------------------------------------------------

/// An answer of another version is final, and a missing answer is not.
pub proof fn law_answers_decide_an_attempt(
    reply: HandshakeReply,
    failure: Option<ReconnectFailure>,
)
    requires
        call_ensures(handshake_failure, (reply,), failure),
    ensures
        reply is Ready <==> failure is None,
        reply matches HandshakeReply::VersionMismatch { daemon } ==> failure == Some(
            ReconnectFailure::VersionMismatch { daemon },
        ),
        reply matches HandshakeReply::Failed(cause) ==> failure == Some(
            ReconnectFailure::Transient(cause),
        ),
{
}

/// An attempt connects, greets, attaches, and then asserts the grid where it is
/// known. A step that fails ends it with its cause.
pub proof fn law_attempt_goes_step_by_step(
    step: AttemptStep,
    grid_known: bool,
    event: AttemptEvent,
    next: Result<AttemptStep, ReconnectFailure>,
)
    requires
        tells_of(step, event),
        call_ensures(attempt_step, (step, grid_known, event), next),
    ensures
        event matches AttemptEvent::Failed(cause) ==> next == Err::<AttemptStep, _>(
            ReconnectFailure::Transient(cause),
        ),
        event matches AttemptEvent::Answered(HandshakeReply::VersionMismatch { daemon }) ==> next
            == Err::<AttemptStep, _>(ReconnectFailure::VersionMismatch { daemon }),
        event matches AttemptEvent::Answered(HandshakeReply::Failed(cause)) ==> next == Err::<
            AttemptStep,
            _,
        >(ReconnectFailure::Transient(cause)),
        next is Ok ==> {
            &&& step is Connect <==> next->Ok_0 is Handshake
            &&& step is Handshake <==> next->Ok_0 is Attach
            &&& step is Attach && grid_known <==> next->Ok_0 is Resize
            &&& next->Ok_0 is Done <==> step is Resize || (step is Attach && !grid_known)
        },
        event is Succeeded ==> next is Ok,
        event == AttemptEvent::Answered(HandshakeReply::Ready) ==> next is Ok,
{
}

/// Recovery starts at the first attempt, at once, and counts on with every
/// failure of the transport up to the tenth attempt, which is the last.
pub proof fn law_recovery_counts_to_ten(
    recovery: &mut DaemonRecovery,
    failure: ReconnectFailure,
    client_version: u32,
    error: Option<SessionError>,
    fresh: DaemonRecovery,
    attempt: u32,
    waits: bool,
)
    requires
        old(recovery).wf(),
        call_ensures(DaemonRecovery::attempt_failed, (recovery, failure, client_version), error),
        call_ensures(DaemonRecovery::new, (), fresh),
        call_ensures(DaemonRecovery::attempt, (final(recovery),), attempt),
        call_ensures(DaemonRecovery::waits, (final(recovery),), waits),
    ensures
        fresh@ == 1,
        attempt == final(recovery)@,
        waits <==> attempt >= 2,
        failure is VersionMismatch ==> error is Some,
        failure is Transient ==> (error is Some <==> old(recovery)@ == 10),
        error is None ==> attempt == old(recovery)@ + 1,
        error is Some ==> attempt == old(recovery)@,
{
}

/// What a failed recovery tells: the versions, or the last cause behind the
/// number of attempts. Only with a dead transport is it tried again.
pub proof fn law_failed_recovery_tells_why(
    recovery: &mut DaemonRecovery,
    failure: ReconnectFailure,
    client_version: u32,
    error: Option<SessionError>,
    retryable: bool,
    client: String,
    daemon: u32,
    served: String,
)
    requires
        call_ensures(DaemonRecovery::attempt_failed, (recovery, failure, client_version), error),
        error is Some,
        call_ensures(session::is_retryable_session_error, (&error->0,), retryable),
        call_ensures(text::decimal, (client_version as u64,), client),
        call_ensures(text::decimal, (daemon as u64,), served),
    ensures
        failure == (ReconnectFailure::VersionMismatch { daemon }) ==> (error->0)@.len() == 1 && (
        error->0)@[0].message@ == "daemon protocol version changed mid-session (client v"@ + client@
            + ", daemon v"@ + served@ + "); a newer client replaced the daemon"@,
        failure is VersionMismatch ==> !retryable,
        failure matches ReconnectFailure::Transient(cause) ==> {
            &&& (error->0)@.len() == 2
            &&& (error->0)@[0].message@ == "daemon stream reconnect gave up after 10 attempts"@
            &&& (error->0)@[1] == cause
            &&& retryable <==> cause.kind is Connection || cause.kind is Channel
        },
{
    if let ReconnectFailure::Transient(cause) = failure {
        law_give_up_keeps_cause((error->0)@, cause);
    }
}

/// Where SSH is down, recovery stops before it tries, and SSH is tried again.
pub proof fn law_recovery_stops_without_ssh(
    recovery: DaemonRecovery,
    transport_closed: bool,
    error: Option<SessionError>,
    retryable: bool,
)
    requires
        call_ensures(DaemonRecovery::before_attempt, (&recovery, transport_closed), error),
        error is Some ==> call_ensures(
            session::is_retryable_session_error,
            (&error->0,),
            retryable,
        ),
    ensures
        error is Some <==> transport_closed,
        error matches Some(e) ==> {
            &&& retryable
            &&& e@.len() == 2
            &&& e@[0].message@ == "daemon stream reconnect aborted"@
            &&& e@[1].message@ == "SSH transport closed"@
        },
{
    if let Some(e) = error {
        law_closed_transport_is_retried(e@);
    }
}

/// The terminal comes from the daemon unless there is none or the setting asks
/// for the other path. An empty setting asks for nothing.
pub proof fn law_terminal_comes_from_the_daemon(
    legacy: Option<&str>,
    daemon_ready: bool,
    daemon: bool,
    source: TerminalSource,
)
    requires
        call_ensures(use_daemon_terminal, (legacy,), daemon),
        call_ensures(terminal_source, (legacy, daemon_ready), source),
    ensures
        !daemon <==> legacy is Some && (legacy->0)@.len() > 0,
        source is Daemon <==> daemon && daemon_ready,
        source is LegacyWithoutDaemon <==> daemon && !daemon_ready,
        source is LegacyBesideDaemon <==> !daemon && daemon_ready,
        source is LegacyAlone <==> !daemon && !daemon_ready,
{
}

} // verus!
