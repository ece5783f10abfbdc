//! The terminal over tmux's control mode, which stands in where the daemon does
//! not carry the terminal.

use vstd::prelude::*;

use crate::messages::{CaptureResult, PaneOutput, SubscriptionUpdate, TermSize};
use crate::terminal;

verus! {

/// The columns of the grid that the control mode starts on.
pub const INITIAL_COLS: u16 = 80;

/// The rows of the grid that the control mode starts on.
pub const INITIAL_ROWS: u16 = 24;

/// The command that turns flow control on.
pub const FLOW_CONTROL_COMMAND: &'static str = "refresh-client -f pause-after=5";

/// The command that opens the control mode on a session, new or not.
pub fn control_command(session: &str) -> (command: String)
    ensures
        command@ == "tmux -CC new-session -A -s "@ + session@,
{
    let mut command = "tmux -CC new-session -A -s ".to_owned();
    command.append(session);
    command
}

/// A format that tmux reports whenever its value changes.
#[derive(Clone, Copy, Debug)]
pub struct Subscription {
    pub name: &'static str,
    /// All panes, `%*`, or all windows, `@*`.
    pub scope: &'static str,
    pub format: &'static str,
}

/// `subscription` has these three parts.
pub open spec fn subscribes(
    subscription: Subscription,
    name: Seq<char>,
    scope: Seq<char>,
    format: Seq<char>,
) -> bool {
    subscription.name@ == name && subscription.scope@ == scope && subscription.format@ == format
}

/// What is subscribed to: each pane's directory and command, and each window's
/// name.
pub fn subscriptions() -> (all: Vec<Subscription>)
    ensures
        all@.len() == 3,
        subscribes(all@[0], "rift_pane_path"@, "%*"@, "#{pane_current_path}"@),
        subscribes(all@[1], "rift_pane_command"@, "%*"@, "#{pane_current_command}"@),
        subscribes(all@[2], "rift_window_name"@, "@*"@, "#{window_name}"@),
{
    vec![
        Subscription { name: "rift_pane_path", scope: "%*", format: "#{pane_current_path}" },
        Subscription { name: "rift_pane_command", scope: "%*", format: "#{pane_current_command}" },
        Subscription { name: "rift_window_name", scope: "@*", format: "#{window_name}" },
    ]
}

/// The grid that tmux is told.
pub fn client_size(size: TermSize) -> (grid: (u16, u16))
    ensures
        grid == (terminal::low_word(size.cols), terminal::low_word(size.rows)),
{
    (terminal::cells(size.cols), terminal::cells(size.rows))
}

/// What a capture is answered with. A capture that failed is answered with
/// nothing, so that the pane can ask again.
pub fn capture_result(pane_id: String, captured: Option<Vec<u8>>) -> (result: CaptureResult)
    ensures
        result.pane_id == pane_id,
        match captured {
            Some(bytes) => result.bytes == bytes,
            None => result.bytes@.len() == 0,
        },
{
    match captured {
        Some(bytes) => CaptureResult { pane_id, bytes },
        None => CaptureResult { pane_id, bytes: Vec::new() },
    }
}

/// What tmux tells a control client.
#[derive(Debug, PartialEq, Eq)]
pub enum TmuxNotification {
    Output { pane_id: String, bytes: Vec<u8> },
    NeedsRefresh,
    SubscriptionChanged(SubscriptionUpdate),
    Exit(Option<String>),
    Warning(String),
}

/// What a notification asks for.
#[derive(Debug, PartialEq, Eq)]
pub enum LegacyStep {
    /// Hand the output on. Where nobody takes it, the loop ends.
    SendOutput(PaneOutput),
    /// Ask tmux for a snapshot, and hand it on where there is one.
    Refresh,
    /// Hand the value on. Where nobody takes it, the loop ends.
    SendUpdate(SubscriptionUpdate),
    /// End the loop.
    Stop,
    /// Log the text.
    Warn(String),
}

/// What a notification asks for.
pub fn legacy_step(notification: TmuxNotification) -> (step: LegacyStep)
    ensures
        step == match notification {
            TmuxNotification::Output { pane_id, bytes } => LegacyStep::SendOutput(
                PaneOutput { pane_id, bytes },
            ),
            TmuxNotification::NeedsRefresh => LegacyStep::Refresh,
            TmuxNotification::SubscriptionChanged(update) => LegacyStep::SendUpdate(update),
            TmuxNotification::Exit(_) => LegacyStep::Stop,
            TmuxNotification::Warning(text) => LegacyStep::Warn(text),
        },
{
    match notification {
        TmuxNotification::Output { pane_id, bytes } => LegacyStep::SendOutput(
            PaneOutput { pane_id, bytes },
        ),
        TmuxNotification::NeedsRefresh => LegacyStep::Refresh,
        TmuxNotification::SubscriptionChanged(update) => LegacyStep::SendUpdate(update),
        TmuxNotification::Exit(_) => LegacyStep::Stop,
        TmuxNotification::Warning(text) => LegacyStep::Warn(text),
    }
}

/// A step ends the loop: tmux exited, or what had to be handed on was not
/// taken.
pub open spec fn ends_loop(step: LegacyStep, taken: bool) -> bool {
    match step {
        LegacyStep::SendOutput(_) | LegacyStep::SendUpdate(_) => !taken,
        LegacyStep::Stop => true,
        LegacyStep::Refresh | LegacyStep::Warn(_) => false,
    }
}

/// Whether a step ends the loop, given whether what it handed on was taken.
pub fn stops_after(step: &LegacyStep, taken: bool) -> (stops: bool)
    ensures
        stops == ends_loop(*step, taken),
{
    match step {
        LegacyStep::SendOutput(_) => !taken,
        LegacyStep::SendUpdate(_) => !taken,
        LegacyStep::Stop => true,
        LegacyStep::Refresh => false,
        LegacyStep::Warn(_) => false,
    }
}

/// The control mode opens the session that it is given, attaching where it is
/// there.
pub proof fn law_control_mode_opens_its_session(session: &str, command: String)
    requires
        call_ensures(control_command, (session,), command),
    ensures
        command@ == "tmux -CC new-session -A -s "@ + session@,
{
}

/// Each subscription reports a format of its own: panes tell their directory and
/// command, windows their name.
pub proof fn law_subscriptions_report_panes_and_windows(all: Vec<Subscription>, i: int)
    requires
        call_ensures(subscriptions, (), all),
        0 <= i < all@.len(),
    ensures
        all@.len() == 3,
        all@[i].name@ == "rift_pane_path"@ || all@[i].name@ == "rift_pane_command"@ || all@[i].name@
            == "rift_window_name"@,
        all@[i].name@ == "rift_pane_path"@ ==> all@[i].scope@ == "%*"@ && all@[i].format@
            == "#{pane_current_path}"@,
        all@[i].name@ == "rift_pane_command"@ ==> all@[i].scope@ == "%*"@ && all@[i].format@
            == "#{pane_current_command}"@,
        all@[i].name@ == "rift_window_name"@ ==> all@[i].scope@ == "@*"@ && all@[i].format@
            == "#{window_name}"@,
{
    reveal_strlit("rift_pane_path");
    reveal_strlit("rift_pane_command");
    reveal_strlit("rift_window_name");
    assert("rift_pane_path"@[10] == 'p');
    assert("rift_pane_command"@[10] == 'c');
    assert("rift_window_name"@[5] == 'w');
    assert("rift_pane_path"@[5] == 'p');
    assert("rift_pane_command"@[5] == 'p');
    assert(i == 0 || i == 1 || i == 2);
}

/// The grid that tmux is told has the columns first, then the rows.
pub proof fn law_client_size_is_the_grid(size: TermSize, grid: (u16, u16))
    requires
        call_ensures(client_size, (size,), grid),
    ensures
        grid.0 == size.cols % 65536,
        grid.1 == size.rows % 65536,
{
}

/// A capture goes back to the pane that asked, with what was captured, or with
/// nothing.
pub proof fn law_capture_goes_back_to_its_pane(
    pane_id: String,
    captured: Option<Vec<u8>>,
    result: CaptureResult,
)
    requires
        call_ensures(capture_result, (pane_id, captured), result),
    ensures
        result.pane_id@ == pane_id@,
        captured matches Some(bytes) ==> result.bytes@ == bytes@,
        captured is None ==> result.bytes@.len() == 0,
{
}

/// What tmux tells is handed on as it is: output with its pane, values with
/// their subscription, warnings with their text. An exit ends the loop.
pub proof fn law_notifications_are_handed_on(
    notification: TmuxNotification,
    step: LegacyStep,
    taken: bool,
    stops: bool,
)
    requires
        call_ensures(legacy_step, (notification,), step),
        call_ensures(stops_after, (&step, taken), stops),
    ensures
        notification matches TmuxNotification::Output { pane_id, bytes } ==> (
        step matches LegacyStep::SendOutput(output) && output.pane_id@ == pane_id@ && output.bytes@
            == bytes@),
        notification is NeedsRefresh <==> step is Refresh,
        notification matches TmuxNotification::SubscriptionChanged(update) ==> (
        step matches LegacyStep::SendUpdate(sent) && sent == update),
        notification is Exit <==> step is Stop,
        notification matches TmuxNotification::Warning(text) ==> (step matches LegacyStep::Warn(
            told,
        ) && told@ == text@),
        stops <==> notification is Exit || (!taken && (notification is Output || notification
            is SubscriptionChanged)),
{
}

} // verus!
