use rift::legacy::{
    capture_result, client_size, control_command, legacy_step, stops_after, subscriptions,
    LegacyStep, TmuxNotification,
};
use rift::messages::{
    CaptureRequest, ClientMessage, PaneInput, PaneLayout, PaneOutput, SessionSwitchRequest,
    SubscriptionUpdate, TermSize, WindowLayout,
};
use rift::terminal::{
    after_command, attach_messages, bytes_to_string, capture_message, command_message,
    input_message, layout_to_snapshot, open_file_message, pane_tag, parse_pane_id,
    request_diff_message, resize_message, switch_message, window_tag, EngineWatches,
};

fn window_layout(window_id: u32, window_index: u32) -> WindowLayout {
    WindowLayout {
        window_id,
        window_index,
        name: format!("win-{window_id}"),
        active: false,
        panes: vec![pane(window_id, true, false)],
    }
}

fn pane(pane_id: u32, active: bool, is_shell: bool) -> PaneLayout {
    PaneLayout {
        pane_id,
        active,
        left: 0,
        top: 0,
        width: 80,
        height: 24,
        current_path: String::new(),
        current_command: String::new(),
        is_shell,
    }
}

#[test]
fn test_layout_to_snapshot_uses_real_window_index_not_array_position() {
    let windows = vec![window_layout(0, 0), window_layout(5, 2)];

    let snapshot = layout_to_snapshot("rift".to_owned(), windows);

    let indices: Vec<i32> = snapshot.snapshot.windows.iter().map(|w| w.index).collect();
    assert_eq!(
        indices,
        vec![0, 2],
        "the tab index must be the real tmux window_index, not array position"
    );
}

#[test]
fn test_layout_to_snapshot_maps_is_shell_by_pane_id() {
    let mut window = window_layout(0, 0);
    window.panes[0].is_shell = true;
    window.panes.push(PaneLayout {
        pane_id: 7,
        active: false,
        left: 0,
        top: 0,
        width: 80,
        height: 24,
        current_path: String::new(),
        current_command: "vim".to_owned(),
        is_shell: false,
    });

    let snapshot = layout_to_snapshot("rift".to_owned(), vec![window]);

    assert_eq!(snapshot.is_shell("%0"), Some(true));
    assert_eq!(snapshot.is_shell("%7"), Some(false));
}

#[test]
fn a_snapshot_carries_the_whole_layout() {
    let mut window = window_layout(3, u32::MAX);
    window.active = true;
    window.panes = vec![pane(1, false, false), pane(2, true, false), pane(4, true, true)];
    window.panes[0].current_path = "/tmp".to_owned();
    window.panes[0].left = 9;
    let shown = layout_to_snapshot("s".to_owned(), vec![window]);
    assert_eq!(shown.snapshot.session_name, "s");
    assert_eq!(shown.snapshot.session_id, None);
    let state = &shown.snapshot.windows[0];
    assert_eq!(state.id, "@3");
    assert_eq!(state.index, -1);
    assert_eq!(state.name, "win-3");
    assert!(state.is_active && !state.automatic_rename);
    assert_eq!(state.active_pane_id.as_deref(), Some("%2"));
    assert_eq!(state.panes.len(), 3);
    assert_eq!(state.panes[0].id, "%1");
    assert_eq!(state.panes[0].window_id, "@3");
    assert_eq!(state.panes[0].current_path, "/tmp");
    assert_eq!(state.panes[0].left, 9);
    assert_eq!(shown.is_shell("%9"), None);
}

#[test]
fn of_panes_with_one_id_the_last_flag_stands() {
    let mut window = window_layout(0, 0);
    window.panes = vec![pane(5, false, true), pane(5, false, false)];
    let shown = layout_to_snapshot("s".to_owned(), vec![window]);
    assert_eq!(shown.is_shell("%5"), Some(false));
    assert_eq!(shown.snapshot.windows[0].active_pane_id, None);
}

#[test]
fn pane_tags_read_back() {
    for id in [0, 7, 10, 4_294_967_295] {
        assert_eq!(parse_pane_id(&pane_tag(id)), Some(id));
    }
    assert_eq!(pane_tag(12), "%12");
    assert_eq!(window_tag(12), "@12");
}

#[test]
fn only_a_percent_sign_and_a_number_are_a_pane() {
    assert_eq!(parse_pane_id("%+3"), Some(3));
    assert_eq!(parse_pane_id("%007"), Some(7));
    for bad in ["", "%", "3", "@3", "%x", "%4294967296", "%-1", "% 1"] {
        assert_eq!(parse_pane_id(bad), None, "{bad:?}");
        assert_eq!(
            bad.strip_prefix('%').and_then(|n| n.parse::<u32>().ok()),
            None,
            "{bad:?} is no number to std either"
        );
    }
}

#[test]
fn typed_text_is_kept_and_broken_bytes_are_replaced() {
    assert_eq!(bytes_to_string("héllo ✓".as_bytes().to_vec()), "héllo ✓");
    assert_eq!(bytes_to_string(vec![b'a', 0xff, b'b']), "a\u{fffd}b");
}

#[test]
fn input_is_sent_to_its_pane_or_dropped() {
    let sent =
        input_message(PaneInput { pane_id: "%3".into(), bytes: b"ls\r".to_vec() });
    assert_eq!(sent, Some(ClientMessage::Input { pane_id: 3, data: "ls\r".into() }));
    let dropped =
        input_message(PaneInput { pane_id: "three".into(), bytes: b"ls\r".to_vec() });
    assert_eq!(dropped, None);
}

#[test]
fn a_capture_keeps_its_rows() {
    let request = |pane: &str| CaptureRequest {
        pane_id: pane.into(),
        start_row: "-".into(),
        end_row: "-1".into(),
        join_wraps: true,
    };
    let sent = capture_message(request("%8"));
    assert_eq!(
        sent,
        Some(ClientMessage::CapturePane {
            pane_id: 8,
            start: "-".into(),
            end: "-1".into(),
            join: true,
        })
    );
    let dropped = capture_message(request("8"));
    assert_eq!(dropped, None);
}

#[test]
fn a_grid_keeps_its_low_sixteen_bits() {
    let message = resize_message(TermSize { cols: 65_536 + 80, rows: 24 });
    assert_eq!(message, ClientMessage::ResizePane { pane_id: 0, cols: 80, rows: 24 });
    assert_eq!(client_size(TermSize { cols: 120, rows: 65_535 }), (120, 65_535));
}

#[test]
fn a_command_that_was_sent_refreshes_the_key_tables_it_may_change() {
    let sent = command_message("bind x".into());
    assert_eq!(sent, ClientMessage::TmuxCommand { cmd: "bind x".into() });
    let next = after_command(true, true);
    assert_eq!(next, Some(ClientMessage::QueryKeyTable));
    for (sent, changes) in [(true, false), (false, true), (false, false)] {
        let next = after_command(sent, changes);
        assert_eq!(next, None);
    }
}

#[test]
fn paths_become_requests() {
    let open = open_file_message("a.rs".into());
    assert_eq!(open, ClientMessage::OpenFile { path: "a.rs".into() });
    let diff = request_diff_message("a.rs".into());
    assert_eq!(diff, ClientMessage::RequestDiff { path: "a.rs".into() });
}

#[test]
fn an_attach_is_followed_by_the_grid_where_it_is_known() {
    let bare = attach_messages("rift", None);
    assert_eq!(bare, vec![ClientMessage::Attach { session: "rift".into() }]);
    let sized = attach_messages("rift", Some(TermSize { cols: 100, rows: 30 }));
    assert_eq!(sized.len(), 2);
    assert_eq!(sized[1], ClientMessage::ResizePane { pane_id: 0, cols: 100, rows: 30 });
}

#[test]
fn a_reconnect_comes_back_to_the_session_that_was_switched_to() {
    let mut watches = EngineWatches::new("rift".into());
    let size = TermSize { cols: 100, rows: 30 };
    watches.resized(size);
    let request = |name: &str| SessionSwitchRequest { session: name.into(), size };

    assert_eq!(
        switch_message(&request("other")),
        ClientMessage::Attach { session: "other".into() }
    );
    let lost = watches.switched(request("lost"), false);
    assert_eq!(lost, None);
    assert_eq!(watches.session, "rift");

    let sent = watches.switched(request("other"), true);
    assert_eq!(sent, Some(ClientMessage::ResizePane { pane_id: 0, cols: 100, rows: 30 }));
    let again = watches.reattach();
    assert_eq!(again[0], ClientMessage::Attach { session: "other".into() });
    assert_eq!(again[1], ClientMessage::ResizePane { pane_id: 0, cols: 100, rows: 30 });
}

#[test]
fn the_control_mode_opens_the_session() {
    assert_eq!(control_command("rift"), "tmux -CC new-session -A -s rift");
    let names: Vec<&str> = subscriptions().iter().map(|s| s.name).collect();
    assert_eq!(names, vec!["rift_pane_path", "rift_pane_command", "rift_window_name"]);
    assert_eq!(subscriptions()[2].scope, "@*");
    assert_eq!(subscriptions()[0].format, "#{pane_current_path}");
}

#[test]
fn a_failed_capture_is_answered_with_nothing() {
    assert_eq!(capture_result("%1".into(), Some(vec![1, 2])).bytes, vec![1, 2]);
    let empty = capture_result("%1".into(), None);
    assert_eq!(empty.pane_id, "%1");
    assert!(empty.bytes.is_empty());
}

#[test]
fn each_notification_has_its_step() {
    let output = TmuxNotification::Output { pane_id: "%1".into(), bytes: vec![7] };
    let step = legacy_step(output);
    assert_eq!(
        step,
        LegacyStep::SendOutput(PaneOutput { pane_id: "%1".into(), bytes: vec![7] })
    );
    assert!(!stops_after(&step, true));
    assert!(stops_after(&step, false));

    let update = SubscriptionUpdate {
        name: "n".into(),
        session: "s".into(),
        window: "w".into(),
        pane: "p".into(),
        value: "v".into(),
    };
    let step = legacy_step(TmuxNotification::SubscriptionChanged(update));
    assert!(matches!(&step, LegacyStep::SendUpdate(u) if u.value == "v"));
    assert!(stops_after(&step, false));

    let step = legacy_step(TmuxNotification::NeedsRefresh);
    assert_eq!(step, LegacyStep::Refresh);
    assert!(!stops_after(&step, false));

    let step = legacy_step(TmuxNotification::Warning("w".into()));
    assert_eq!(step, LegacyStep::Warn("w".into()));
    assert!(!stops_after(&step, false));

    let step = legacy_step(TmuxNotification::Exit(None));
    assert_eq!(step, LegacyStep::Stop);
    assert!(stops_after(&step, true));
}
