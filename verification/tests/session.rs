use rift::messages::{
    CaptureRequest, ConnectionStatus, PaneInput, SessionSwitchRequest, TermSize,
};
use rift::session::{
    classify_connect_error, drain_render_backlog, end_reports, is_retryable_session_error,
    retry_report, AfterAttempt, Cause, CauseKind, ConnectError, EditorChannels, EngineReport,
    Phase, PtyChannels, ReconnectEngine, SessionError, WaitOutcome,
};
use rift::terminal::EngineWatches;

/// A request of the editor that only passes through.
#[derive(Debug, PartialEq, Eq)]
struct Request(&'static str);

struct BacklogHarness {
    ch: PtyChannels,
    editor: EditorChannels<Request>,
    watches: EngineWatches,
    input_tx: flume::Sender<PaneInput>,
    size_tx: flume::Sender<TermSize>,
    command_tx: flume::Sender<String>,
    capture_tx: flume::Sender<CaptureRequest>,
    key_table_tx: flume::Sender<()>,
    session_list_tx: flume::Sender<()>,
    switch_tx: flume::Sender<SessionSwitchRequest>,
    open_file_tx: flume::Sender<String>,
    save_file_tx: flume::Sender<Request>,
    buffer_change_tx: flume::Sender<Request>,
    nav_tx: flume::Sender<Request>,
    request_diff_tx: flume::Sender<String>,
    git_op_tx: flume::Sender<Request>,
    file_op_tx: flume::Sender<Request>,
}

fn backlog_harness() -> BacklogHarness {
    let (input_tx, input_rx) = flume::unbounded();
    let (size_tx, size_changed_rx) = flume::unbounded();
    let (command_tx, tmux_command_rx) = flume::unbounded();
    let (capture_tx, capture_request_rx) = flume::unbounded();
    let (key_table_tx, key_table_request_rx) = flume::unbounded();
    let (session_list_tx, session_list_request_rx) = flume::unbounded();
    let (switch_tx, session_switch_rx) = flume::unbounded();
    let (open_file_tx, open_file_rx) = flume::unbounded();
    let (save_file_tx, save_file_rx) = flume::unbounded();
    let (buffer_change_tx, buffer_change_rx) = flume::unbounded();
    let (nav_tx, nav_request_rx) = flume::unbounded();
    let (request_diff_tx, request_diff_rx) = flume::unbounded();
    let (git_op_tx, git_op_rx) = flume::unbounded();
    let (file_op_tx, file_op_rx) = flume::unbounded();
    BacklogHarness {
        ch: PtyChannels {
            input_rx,
            size_changed_rx,
            tmux_command_rx,
            capture_request_rx,
            key_table_request_rx,
            session_list_request_rx,
            session_switch_rx,
        },
        editor: EditorChannels {
            open_file_rx,
            save_file_rx,
            buffer_change_rx,
            nav_request_rx,
            request_diff_rx,
            git_op_rx,
            file_op_rx,
        },
        watches: EngineWatches::new("rift".to_string()),
        input_tx,
        size_tx,
        command_tx,
        capture_tx,
        key_table_tx,
        session_list_tx,
        switch_tx,
        open_file_tx,
        save_file_tx,
        buffer_change_tx,
        nav_tx,
        request_diff_tx,
        git_op_tx,
        file_op_tx,
    }
}

fn elsewhere() -> SessionSwitchRequest {
    SessionSwitchRequest { session: "elsewhere".into(), size: TermSize { cols: 80, rows: 24 } }
}

#[test]
fn test_drain_render_backlog_queued_backlog_discarded() {
    let mut h = backlog_harness();
    h.input_tx
        .send(PaneInput { pane_id: "%1".into(), bytes: b"stale keystrokes\r".to_vec() })
        .expect("send input");
    h.command_tx.send("kill-pane -t %1".into()).expect("send command");
    h.capture_tx
        .send(CaptureRequest {
            pane_id: "%1".into(),
            start_row: "-".into(),
            end_row: "-1".into(),
            join_wraps: false,
        })
        .expect("send capture");
    h.key_table_tx.send(()).expect("send key-table refresh");
    h.session_list_tx.send(()).expect("send session-list refresh");
    h.switch_tx.send(elsewhere()).expect("send switch");
    h.open_file_tx.send("src/main.rs".into()).expect("send open");
    h.save_file_tx.send(Request("save")).expect("send save");
    h.buffer_change_tx
        .send(Request("closed"))
        .expect("send buffer change");
    h.nav_tx.send(Request("definition")).expect("send nav");
    h.request_diff_tx.send("src/main.rs".into()).expect("send diff request");
    h.git_op_tx.send(Request("stage")).expect("send git op");
    h.file_op_tx.send(Request("rename")).expect("send file op");

    let dropped = drain_render_backlog(&h.ch, &h.editor, &mut h.watches);

    assert_eq!(dropped, 13);
    assert!(h.ch.input_rx.is_empty());
    assert!(h.ch.tmux_command_rx.is_empty());
    assert!(h.ch.capture_request_rx.is_empty());
    assert!(h.ch.key_table_request_rx.is_empty());
    assert!(h.ch.session_list_request_rx.is_empty());
    assert!(h.ch.session_switch_rx.is_empty());
    assert!(h.editor.open_file_rx.is_empty());
    assert!(h.editor.save_file_rx.is_empty());
    assert!(h.editor.buffer_change_rx.is_empty());
    assert!(h.editor.nav_request_rx.is_empty());
    assert!(h.editor.request_diff_rx.is_empty());
    assert!(h.editor.git_op_rx.is_empty());
    assert!(h.editor.file_op_rx.is_empty());
}

#[test]
fn test_drain_render_backlog_latest_size_folded_into_viewport_watch() {
    let mut h = backlog_harness();
    h.size_tx.send(TermSize { cols: 120, rows: 40 }).expect("send size");
    h.size_tx.send(TermSize { cols: 200, rows: 60 }).expect("send size");

    let dropped = drain_render_backlog(&h.ch, &h.editor, &mut h.watches);

    assert_eq!(h.watches.viewport, Some(TermSize { cols: 200, rows: 60 }));
    assert!(h.ch.size_changed_rx.is_empty());
    assert_eq!(dropped, 0);
}

#[test]
fn test_drain_render_backlog_no_queued_size_keeps_viewport_watch() {
    let mut h = backlog_harness();
    drain_render_backlog(&h.ch, &h.editor, &mut h.watches);
    assert_eq!(h.watches.viewport, None);
}

#[test]
fn test_drain_render_backlog_dropped_switch_leaves_session_watch_untouched() {
    let mut h = backlog_harness();
    h.switch_tx.send(elsewhere()).expect("send switch");

    drain_render_backlog(&h.ch, &h.editor, &mut h.watches);

    assert_eq!(h.watches.session, "rift");
}

fn ssh(kind: CauseKind, message: &str) -> SessionError {
    SessionError::new(Cause { kind, message: message.into() })
}

fn transport() -> SessionError {
    ssh(CauseKind::Connection, "connection reset by peer").context("SSH connection failed".into())
}

#[test]
fn test_is_retryable_session_error_transport_chain_returns_true() {
    assert!(is_retryable_session_error(&transport()));
}

#[test]
fn test_is_retryable_session_error_auth_chain_returns_false() {
    let error = ssh(CauseKind::Auth, "public key authentication failed")
        .context("SSH connection failed".into());
    assert!(!is_retryable_session_error(&error));
}

#[test]
fn test_is_retryable_session_error_plain_message_returns_false() {
    let error = SessionError::msg("daemon protocol version changed mid-session".into());
    assert!(!is_retryable_session_error(&error));
}

#[test]
fn test_is_retryable_session_error_nested_transport_chain_returns_true() {
    let error = ssh(CauseKind::Channel, "channel closed")
        .context("daemon stream reconnect gave up after 10 attempts".into());
    assert!(is_retryable_session_error(&error));
}

#[test]
fn a_passphrase_failure_shows_its_root_cause() {
    let encrypted = ssh(CauseKind::KeyEncrypted, "key is encrypted").context("failed".into());
    assert_eq!(
        classify_connect_error(false, &encrypted),
        ConnectError::Passphrase("key is encrypted".into())
    );
    let unreadable = ssh(CauseKind::Key, "bad key").context("failed".into());
    assert_eq!(
        classify_connect_error(true, &unreadable),
        ConnectError::Passphrase("bad key".into())
    );
    assert_eq!(
        classify_connect_error(false, &unreadable),
        ConnectError::General("failed".into())
    );
}

#[test]
fn context_goes_in_front_of_the_chain() {
    let error = transport();
    assert_eq!(error.outermost(), "SSH connection failed");
    assert_eq!(error.root_cause(), "connection reset by peer");
    assert_eq!(error.causes().len(), 2);
    assert!(SessionError::from_causes(Vec::new()).is_none());
    let chain = vec![Cause { kind: CauseKind::Auth, message: "no".into() }];
    assert_eq!(SessionError::from_causes(chain).unwrap().outermost(), "no");
}

#[test]
fn a_dead_transport_is_retried_until_it_is_up_again() {
    let mut engine = ReconnectEngine::new();
    for expected in 1..=3 {
        assert_eq!(engine.phase(), Phase::Attempting);
        let (fresh, next) = engine.attempt_ended(false, Err(transport()), false);
        assert!(!fresh);
        assert_eq!(next, AfterAttempt::Wait { retry: expected });
        assert_eq!(engine.phase(), Phase::Waiting);
        assert!(engine.wait_ended(WaitOutcome::TimedOut));
    }
    let (fresh, next) = engine.attempt_ended(true, Err(transport()), false);
    assert!(fresh);
    assert_eq!(next, AfterAttempt::Wait { retry: 1 });
    assert_eq!(engine.retry(), 1);
}

#[test]
fn an_orderly_end_is_not_retried() {
    let mut engine = ReconnectEngine::new();
    assert_eq!(
        engine.attempt_ended(true, Ok(()), false),
        (true, AfterAttempt::End { reason: None })
    );
    assert_eq!(engine.phase(), Phase::Ended);
}

#[test]
fn a_lasting_failure_ends_with_its_reason() {
    let mut engine = ReconnectEngine::new();
    let refused = ssh(CauseKind::Auth, "refused").context("SSH connection failed".into());
    assert_eq!(
        engine.attempt_ended(false, Err(refused), true).1,
        AfterAttempt::End {
            reason: Some(ConnectError::General("SSH connection failed".into()))
        }
    );
    assert_eq!(engine.phase(), Phase::Ended);
}

#[test]
fn a_cancel_or_a_closed_window_ends_the_wait() {
    for outcome in [WaitOutcome::Canceled, WaitOutcome::Disconnected] {
        let mut engine = ReconnectEngine::new();
        engine.attempt_ended(false, Err(transport()), false);
        assert!(!engine.wait_ended(outcome));
        assert_eq!(engine.phase(), Phase::Ended);
    }
}

#[test]
fn the_end_is_told_before_the_disconnect() {
    let reason = Some(ConnectError::General("no".into()));
    let reports = end_reports(reason);
    assert_eq!(
        reports[0],
        EngineReport::SessionEnded(Some(ConnectError::General("no".into())))
    );
    assert_eq!(reports[1], EngineReport::Status(ConnectionStatus::Disconnected));
    assert_eq!(reports.len(), 2);
    assert_eq!(
        retry_report(4),
        EngineReport::Status(ConnectionStatus::SshReconnecting { retry: 4 })
    );
}
