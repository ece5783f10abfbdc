use std::collections::HashSet;

use rift::bindings::{key_bindings, Command, KeyContext};
use rift::file_tree::actions::TreeAction;
use rift::launch::{
    asset_route, list_icons, log_channel, log_file_parts, log_sink, window_title, AssetRoute,
    LogTarget,
};
use rift::session::ConnectError;
use rift::shell::{ssh_label, ConnectRequest, ScreenState, Shell};
use rift::text::{decimal, is_white_space, parse_number, trim};

#[test]
fn each_build_has_its_log_and_its_title() {
    assert_eq!(log_channel(true), "rift-stable");
    assert_eq!(log_channel(false), "rift-dev");
    assert_eq!(log_file_parts(false), ("rift", "rift-dev.log".to_owned()));
    assert_eq!(log_file_parts(true), ("rift", "rift-stable.log".to_owned()));
    assert_eq!(window_title(true), "rift");
    assert_eq!(window_title(false), "rift (dev)");
}

#[test]
fn a_log_file_that_does_not_open_leaves_the_console() {
    assert_eq!(log_sink(LogTarget::File, true), LogTarget::File);
    assert_eq!(log_sink(LogTarget::File, false), LogTarget::Console);
    assert_eq!(log_sink(LogTarget::Console, true), LogTarget::Console);
}

#[test]
fn the_path_alone_decides_who_serves_an_asset() {
    assert_eq!(asset_route("file_icons/rust.svg"), AssetRoute::FileIcons);
    assert_eq!(asset_route("file_icons/missing.svg"), AssetRoute::FileIcons);
    assert_eq!(asset_route("icons/folder.svg"), AssetRoute::Toolkit);
    assert_eq!(asset_route("file_icons"), AssetRoute::Toolkit);
}

#[test]
fn icons_are_listed_by_prefix() {
    let names = vec![
        "file_icons/rust.svg".to_owned(),
        "other/rust.svg".to_owned(),
        "file_icons/ruby.svg".to_owned(),
    ];
    assert_eq!(list_icons("file_icons/", &names), vec![0, 2]);
    assert_eq!(list_icons("file_icons/rub", &names), vec![2]);
    assert!(list_icons("x", &names).is_empty());
}

#[test]
fn no_keys_are_bound_twice_in_one_context() {
    let all = key_bindings();
    assert_eq!(all.len(), 36);
    let unique: HashSet<(&str, String)> =
        all.iter().map(|b| (b.keys, format!("{:?}", b.context))).collect();
    assert_eq!(unique.len(), all.len());
}

#[test]
fn the_keys_do_what_they_say() {
    let all = key_bindings();
    let of = |keys: &str| all.iter().find(|b| b.keys == keys).expect("bound");
    assert_eq!(of("alt-9").command, Command::SelectWindow(9));
    assert_eq!(of("ctrl-shift-o").command, Command::OpenQuickOpen);
    assert_eq!(of("ctrl-shift-o").context, None);
    assert_eq!(of("tab").command, Command::Nothing);
    assert_eq!(of("tab").context, Some(KeyContext::Terminal));
    assert_eq!(of("f12").context, Some(KeyContext::Editor));
    assert_eq!(of("f2").command, Command::Tree(TreeAction::StartRename));
    assert_eq!(of("shift-down").command, Command::Tree(TreeAction::ExtendSelectionDown));
    assert_eq!(of("shift-down").context, Some(KeyContext::FileTree));
}

fn request(passphrase: Option<&str>) -> ConnectRequest {
    ConnectRequest {
        host: "box".into(),
        user: "me".into(),
        port: 22,
        key: "/id".into(),
        session: "rift".into(),
        passphrase: passphrase.map(str::to_owned),
    }
}

#[test]
fn a_connection_is_recorded_without_its_passphrase() {
    let mut shell = Shell::new(true);
    assert_eq!(*shell.screen(), ScreenState::Connection { error: None });
    let plan = shell.connect(request(Some("hunter2")), 77);
    assert_eq!(*shell.screen(), ScreenState::Workspace);
    assert_eq!(plan.label, "me@box");
    assert_eq!(plan.session, "rift");
    assert_eq!(plan.ssh.passphrase.as_deref(), Some("hunter2"));
    assert_eq!(plan.ssh.port, 22);
    let recent = plan.recent.expect("recorded");
    assert_eq!(recent.last_connected_unix_secs, 77);
    assert_eq!((recent.host.as_str(), recent.key.as_str()), ("box", "/id"));
    assert_eq!(Shell::new(true).connect(request(None), 77).recent, Some(recent));
}

#[test]
fn nothing_is_recorded_where_recents_are_not_kept() {
    let mut shell = Shell::new(false);
    assert!(shell.connect(request(None), 1).recent.is_none());
}

#[test]
fn the_end_of_a_session_leads_back_to_the_connection_screen() {
    let mut shell = Shell::new(true);
    shell.connect(request(None), 1);
    shell.return_to_connection_screen(Some(ConnectError::General("no".into())));
    assert_eq!(
        *shell.screen(),
        ScreenState::Connection { error: Some(ConnectError::General("no".into())) }
    );
    assert_eq!(ssh_label("a", "b"), "a@b");
}

#[test]
fn white_space_is_what_std_says() {
    for c in '\0'..=char::MAX {
        assert_eq!(is_white_space(c), c.is_whitespace(), "{c:?}");
    }
}

#[test]
fn trimming_and_numbers_agree_with_std() {
    for text in ["", " ", "a", " a b\t", "\u{3000}x\u{a0}", "\n\n"] {
        assert_eq!(trim(text), text.trim());
    }
    for n in [0u64, 9, 10, 12_345, u64::MAX] {
        assert_eq!(decimal(n), n.to_string());
    }
    for text in ["", "+", "0", "+7", "-1", "4294967295", "4294967296", "1a", " 1", "００"] {
        assert_eq!(parse_number(text), text.parse::<u32>().ok(), "{text:?}");
    }
}
