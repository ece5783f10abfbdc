use rift::daemon::provision::{
    binary_source, endpoint_for, project_root, remote_dir, BinarySource, HandshakeReply,
    ProvisionAction, ProvisionEvent, ProvisionOutcome, ProvisionStage, Provisioner,
};
use rift::daemon::recovery::{
    attempt_step, terminal_source, use_daemon_terminal, AttemptEvent, AttemptStep,
    DaemonRecovery, ReconnectFailure, TerminalSource, DAEMON_RECONNECT_MAX_ATTEMPTS,
};
use rift::daemon::stream::{
    after_stream, consume_daemon_messages, route_daemon_message, AfterStream, Consumer, Routed,
    StreamEnd,
};
use rift::messages::{
    ConnectionStatus, DaemonMessage, PaneOutput, SessionEntry, SessionListItem, WindowLayout,
};
use rift::session::{is_retryable_session_error, Cause, CauseKind};

fn cause(kind: CauseKind) -> Cause {
    Cause { kind, message: "lost".into() }
}

fn exit() -> DaemonMessage<u32> {
    DaemonMessage::TerminalExit { session: "rift".into(), reason: None }
}

#[test]
fn output_reaches_its_pane_under_its_tag() {
    let message: DaemonMessage<u32> = DaemonMessage::PaneOutput { pane_id: 4, bytes: vec![1] };
    match route_daemon_message(message, true) {
        Routed::PaneOutput(out) => {
            assert_eq!(out, PaneOutput { pane_id: "%4".into(), bytes: vec![1] })
        }
        _ => panic!("not output"),
    }
}

#[test]
fn without_a_terminal_its_messages_are_dropped() {
    let messages: Vec<DaemonMessage<u32>> = vec![
        DaemonMessage::PaneOutput { pane_id: 4, bytes: vec![1] },
        DaemonMessage::PaneCapture { pane_id: 4, bytes: vec![1] },
        DaemonMessage::KeyTableReply { list_keys: "k".into(), options: "o".into() },
        DaemonMessage::SessionListReply { sessions: vec![] },
        DaemonMessage::LayoutSnapshot { session: "s".into(), windows: vec![] },
        DaemonMessage::LayoutUpdate { session: "s".into(), windows: vec![] },
        exit(),
    ];
    for message in messages {
        assert!(matches!(route_daemon_message(message, false), Routed::Dropped));
    }
}

#[test]
fn a_layout_and_its_update_are_shown_alike() {
    let windows = || -> Vec<WindowLayout> {
        vec![WindowLayout {
            window_id: 1,
            window_index: 0,
            name: "w".into(),
            active: true,
            panes: vec![],
        }]
    };
    let whole: DaemonMessage<u32> =
        DaemonMessage::LayoutSnapshot { session: "s".into(), windows: windows() };
    let update: DaemonMessage<u32> =
        DaemonMessage::LayoutUpdate { session: "s".into(), windows: windows() };
    match (route_daemon_message(whole, true), route_daemon_message(update, true)) {
        (Routed::Layout(a), Routed::Layout(b)) => assert_eq!(a.snapshot, b.snapshot),
        _ => panic!("not layouts"),
    }
}

#[test]
fn sessions_are_listed_as_they_are() {
    let message: DaemonMessage<u32> = DaemonMessage::SessionListReply {
        sessions: vec![SessionEntry {
            id: "$1".into(),
            name: "rift".into(),
            windows: 3,
            attached: true,
        }],
    };
    match route_daemon_message(message, true) {
        Routed::SessionList(items) => assert_eq!(
            items,
            vec![SessionListItem {
                id: "$1".into(),
                name: "rift".into(),
                windows: 3,
                attached: true,
            }]
        ),
        _ => panic!("not a list"),
    }
}

#[test]
fn replies_are_forwarded_unchanged_in_every_mode() {
    let cases: Vec<(fn(u32) -> DaemonMessage<u32>, Consumer)> = vec![
        (DaemonMessage::WorktreeSnapshot, Consumer::Worktree),
        (DaemonMessage::UpdateWorktree, Consumer::Worktree),
        (DaemonMessage::UpdateGitStatus, Consumer::Worktree),
        (DaemonMessage::RepoState, Consumer::Worktree),
        (DaemonMessage::Diagnostics, Consumer::Worktree),
        (DaemonMessage::FileContent, Consumer::Buffer),
        (DaemonMessage::SaveResult, Consumer::Buffer),
        (DaemonMessage::SaveConflict, Consumer::Buffer),
        (DaemonMessage::OpenError, Consumer::Buffer),
        (DaemonMessage::SaveError, Consumer::Buffer),
        (DaemonMessage::DefinitionResponse, Consumer::Nav),
        (DaemonMessage::HoverResponse, Consumer::Nav),
        (DaemonMessage::ReferencesResponse, Consumer::Nav),
        (DaemonMessage::DocumentSymbolResponse, Consumer::Nav),
        (DaemonMessage::LspStatus, Consumer::LspStatus),
        (DaemonMessage::FileDiff, Consumer::Diff),
        (DaemonMessage::FileOpResult, Consumer::FileOpResult),
    ];
    for (make, expected) in cases {
        for in_terminal in [true, false] {
            match route_daemon_message(make(9), in_terminal) {
                Routed::Forward { to, message } => {
                    assert_eq!(to, expected);
                    assert_eq!(message, make(9));
                }
                _ => panic!("not forwarded"),
            }
        }
    }
    assert!(matches!(
        route_daemon_message(DaemonMessage::Other(1u32), true),
        Routed::Dropped
    ));
}

#[test]
fn the_terminals_end_ends_the_stream_and_hides_the_rest() {
    let messages = || vec![DaemonMessage::FileDiff(1u32), exit(), DaemonMessage::FileDiff(2)];
    let (routes, end) = consume_daemon_messages(messages(), true);
    assert_eq!(routes.len(), 2);
    assert_eq!(end, StreamEnd::TerminalExit);
    assert_eq!(after_stream(end), AfterStream::Finish);

    let (routes, end) = consume_daemon_messages(messages(), false);
    assert_eq!(routes.len(), 3);
    assert_eq!(end, StreamEnd::Closed);
    assert_eq!(
        after_stream(end),
        AfterStream::Recover { show: ConnectionStatus::Reconnecting }
    );
}

#[test]
fn the_environment_wins_over_the_build() {
    assert_eq!(binary_source(Some("/a"), Some("/b")), Some(BinarySource::Environment));
    assert_eq!(binary_source(Some(""), Some("/b")), Some(BinarySource::Baked));
    assert_eq!(binary_source(None, Some("/b")), Some(BinarySource::Baked));
    assert_eq!(binary_source(None, Some("")), None);
    assert_eq!(binary_source(None, None), None);
    assert_eq!(remote_dir(None), "$HOME/.rift/bin");
    assert_eq!(remote_dir(Some("")), "");
    assert_eq!(project_root(Some("/e"), Some("/b")), Some("/e".to_owned()));
    assert_eq!(project_root(None, Some("/b")), Some("/b".to_owned()));
    assert_eq!(project_root(None, None), None);
}

#[test]
fn socket_and_log_stand_beside_the_binary() {
    let endpoint = endpoint_for("/bin/daemon-1".into(), Some("/proj".into()));
    assert_eq!(endpoint.remote_path, "/bin/daemon-1");
    assert_eq!(endpoint.socket_path, "/bin/daemon-1.sock");
    assert_eq!(endpoint.log_path, "/bin/daemon-1.log");
    assert_eq!(endpoint.project_root.as_deref(), Some("/proj"));
}

fn deployed(uploaded: bool) -> ProvisionEvent {
    ProvisionEvent::Deployed(Some(("/bin/d".into(), uploaded)))
}

fn stages(events: Vec<ProvisionEvent>) -> (Vec<ProvisionStage>, Provisioner) {
    let mut run = Provisioner::new(Some(BinarySource::Baked), Some("/proj".into()));
    let mut seen = vec![run.stage()];
    for event in events {
        run.advance(event);
        seen.push(run.stage());
    }
    (seen, run)
}

#[test]
fn a_healthy_daemon_is_attached_without_being_stopped() {
    let (seen, run) = stages(vec![
        ProvisionEvent::BinaryRead { ok: true },
        deployed(false),
        ProvisionEvent::Attached { ok: true },
        ProvisionEvent::Handshaken(HandshakeReply::Ready),
    ]);
    assert_eq!(
        seen,
        vec![
            ProvisionStage::Read,
            ProvisionStage::Deploy,
            ProvisionStage::Attach,
            ProvisionStage::Handshake,
            ProvisionStage::Ready,
        ]
    );
    match run.finish(3) {
        ProvisionOutcome::Ready(endpoint) => {
            assert_eq!(endpoint, endpoint_for("/bin/d".into(), Some("/proj".into())))
        }
        other => panic!("{other:?}"),
    }
}

#[test]
fn a_replaced_binary_stops_the_old_daemon_first() {
    for stopped in [true, false] {
        let (seen, run) = stages(vec![
            ProvisionEvent::BinaryRead { ok: true },
            deployed(true),
            ProvisionEvent::Stopped { ok: stopped },
        ]);
        assert_eq!(seen[2], ProvisionStage::StopChanged);
        assert_eq!(seen[3], ProvisionStage::Attach);
        assert_eq!(run.action(), ProvisionAction::ConnectOrSpawn);
        assert_eq!(run.endpoint().unwrap().socket_path, "/bin/d.sock");
    }
}

fn until_mismatch() -> Vec<ProvisionEvent> {
    vec![
        ProvisionEvent::BinaryRead { ok: true },
        deployed(false),
        ProvisionEvent::Attached { ok: true },
        ProvisionEvent::Handshaken(HandshakeReply::VersionMismatch { daemon: 2 }),
        ProvisionEvent::Stopped { ok: true },
        deployed(true),
        ProvisionEvent::Attached { ok: true },
    ]
}

#[test]
fn a_stale_daemon_is_replaced_once() {
    let mut events = until_mismatch();
    events.push(ProvisionEvent::Handshaken(HandshakeReply::Ready));
    let (seen, run) = stages(events);
    assert_eq!(
        seen[4..],
        [
            ProvisionStage::StopStale,
            ProvisionStage::Redeploy,
            ProvisionStage::Respawn,
            ProvisionStage::Rehandshake,
            ProvisionStage::Ready,
        ]
    );
    assert!(matches!(run.finish(3), ProvisionOutcome::Ready(_)));
}

#[test]
fn a_second_mismatch_fails_the_session() {
    let mut events = until_mismatch();
    events.push(ProvisionEvent::Handshaken(HandshakeReply::VersionMismatch { daemon: 2 }));
    let (_, run) = stages(events);
    match run.finish(3) {
        ProvisionOutcome::Skew(error) => {
            assert_eq!(
                error.outermost(),
                "daemon protocol version mismatch persists after replacement (client v3, daemon v2)"
            );
            assert!(!is_retryable_session_error(&error));
        }
        other => panic!("{other:?}"),
    }
}

#[test]
fn any_other_failure_goes_on_without_a_daemon() {
    let failures = [
        (0, ProvisionEvent::BinaryRead { ok: false }),
        (1, ProvisionEvent::Deployed(None)),
        (2, ProvisionEvent::Attached { ok: false }),
        (3, ProvisionEvent::Handshaken(HandshakeReply::Failed(cause(CauseKind::Channel)))),
        (4, ProvisionEvent::Stopped { ok: false }),
        (5, ProvisionEvent::Deployed(None)),
        (6, ProvisionEvent::Attached { ok: false }),
    ];
    for (at, failure) in failures {
        let mut events = until_mismatch();
        events.truncate(at);
        events.push(failure);
        let (seen, run) = stages(events);
        assert_eq!(*seen.last().unwrap(), ProvisionStage::Unavailable);
        assert_eq!(run.action(), ProvisionAction::Finish);
        assert_eq!(run.finish(3), ProvisionOutcome::Unavailable);
    }
    let none = Provisioner::new(None, None);
    assert_eq!(none.finish(3), ProvisionOutcome::Unavailable);
}

#[test]
fn recovery_waits_from_the_second_attempt_and_gives_up_after_the_last() {
    let mut recovery = DaemonRecovery::new();
    assert!(!recovery.waits());
    for attempt in 1..DAEMON_RECONNECT_MAX_ATTEMPTS {
        assert_eq!(recovery.attempt(), attempt);
        assert!(recovery.before_attempt(false).is_none());
        let failure = ReconnectFailure::Transient(cause(CauseKind::Channel));
        assert!(recovery.attempt_failed(failure, 3).is_none());
        assert!(recovery.waits());
    }
    let failure = ReconnectFailure::Transient(cause(CauseKind::Channel));
    let error = recovery.attempt_failed(failure, 3).expect("gave up");
    assert_eq!(error.outermost(), "daemon stream reconnect gave up after 10 attempts");
    assert_eq!(error.root_cause(), "lost");
    assert!(is_retryable_session_error(&error));
}

#[test]
fn giving_up_after_an_untyped_failure_is_not_retried() {
    let mut recovery = DaemonRecovery::new();
    for _ in 1..DAEMON_RECONNECT_MAX_ATTEMPTS {
        recovery.attempt_failed(ReconnectFailure::Transient(cause(CauseKind::Channel)), 3);
    }
    let error = recovery
        .attempt_failed(ReconnectFailure::Transient(cause(CauseKind::Untyped)), 3)
        .expect("gave up");
    assert!(!is_retryable_session_error(&error));
}

#[test]
fn a_closed_transport_ends_recovery_at_once() {
    let recovery = DaemonRecovery::new();
    let error = recovery.before_attempt(true).expect("aborted");
    assert_eq!(error.outermost(), "daemon stream reconnect aborted");
    assert_eq!(error.root_cause(), "SSH transport closed");
    assert!(is_retryable_session_error(&error));
}

#[test]
fn another_version_ends_recovery_for_good() {
    let mut recovery = DaemonRecovery::new();
    let error = recovery
        .attempt_failed(ReconnectFailure::VersionMismatch { daemon: 4 }, 3)
        .expect("ended");
    assert_eq!(
        error.outermost(),
        "daemon protocol version changed mid-session (client v3, daemon v4); \
         a newer client replaced the daemon"
    );
    assert!(!is_retryable_session_error(&error));
    assert_eq!(recovery.attempt(), 1);
}

#[test]
fn an_attempt_attaches_before_it_asserts_the_grid() {
    let done = || AttemptEvent::Succeeded;
    assert_eq!(attempt_step(AttemptStep::Connect, true, done()), Ok(AttemptStep::Handshake));
    assert_eq!(
        attempt_step(
            AttemptStep::Handshake,
            true,
            AttemptEvent::Answered(HandshakeReply::Ready)
        ),
        Ok(AttemptStep::Attach)
    );
    assert_eq!(attempt_step(AttemptStep::Attach, true, done()), Ok(AttemptStep::Resize));
    assert_eq!(attempt_step(AttemptStep::Attach, false, done()), Ok(AttemptStep::Done));
    assert_eq!(attempt_step(AttemptStep::Resize, true, done()), Ok(AttemptStep::Done));
    assert_eq!(
        attempt_step(AttemptStep::Attach, true, AttemptEvent::Failed(cause(CauseKind::Channel))),
        Err(ReconnectFailure::Transient(cause(CauseKind::Channel)))
    );
    assert_eq!(
        attempt_step(
            AttemptStep::Handshake,
            true,
            AttemptEvent::Answered(HandshakeReply::VersionMismatch { daemon: 9 })
        ),
        Err(ReconnectFailure::VersionMismatch { daemon: 9 })
    );
    assert_eq!(
        attempt_step(
            AttemptStep::Handshake,
            true,
            AttemptEvent::Answered(HandshakeReply::Failed(cause(CauseKind::Channel)))
        ),
        Err(ReconnectFailure::Transient(cause(CauseKind::Channel)))
    );
}

#[test]
fn the_terminal_comes_from_the_daemon_unless_told_otherwise() {
    assert!(use_daemon_terminal(None));
    assert!(use_daemon_terminal(Some("")));
    assert!(!use_daemon_terminal(Some("1")));
    assert_eq!(terminal_source(None, true), TerminalSource::Daemon);
    assert_eq!(terminal_source(None, false), TerminalSource::LegacyWithoutDaemon);
    assert_eq!(terminal_source(Some("1"), true), TerminalSource::LegacyBesideDaemon);
    assert_eq!(terminal_source(Some("1"), false), TerminalSource::LegacyAlone);
}
