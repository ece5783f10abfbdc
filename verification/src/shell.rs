//! The window's content: the connection screen, the workspace of a session, and
//! the way between the two.

use vstd::prelude::*;

use crate::session::ConnectError;

verus! {

/// A submitted connection form. It cannot be printed, for it may hold a
/// passphrase.
pub struct ConnectRequest {
    pub host: String,
    pub user: String,
    pub port: u16,
    pub key: String,
    pub session: String,
    pub passphrase: Option<String>,
}

/// A connection in the list of recent ones. It holds no passphrase.
#[derive(Debug, PartialEq, Eq)]
pub struct RecentConnection {
    pub host: String,
    pub user: String,
    pub port: u16,
    pub key: String,
    pub session: String,
    pub last_connected_unix_secs: u64,
}

/// How the host is reached. It cannot be printed, for it may hold a passphrase.
pub struct SshConfig {
    pub host: String,
    pub port: u16,
    pub user: String,
    pub key: String,
    pub passphrase: Option<String>,
}

/// What a connection needs: how the host is reached, and the session to attach.
pub struct SessionPlan {
    pub ssh: SshConfig,
    pub session: String,
    /// The host as the status line shows it.
    pub label: String,
    /// What is recorded among the recent connections; nothing where they are
    /// not kept.
    pub recent: Option<RecentConnection>,
}

/// `recent` records `request`.
pub open spec fn records(recent: RecentConnection, request: ConnectRequest, now: u64) -> bool {
    &&& recent.host@ == request.host@
    &&& recent.user@ == request.user@
    &&& recent.port == request.port
    &&& recent.key@ == request.key@
    &&& recent.session@ == request.session@
    &&& recent.last_connected_unix_secs == now
}

/// `plan` is how `request` is carried out.
pub open spec fn carries_out(
    plan: SessionPlan,
    request: ConnectRequest,
    keeps_recents: bool,
    now: u64,
) -> bool {
    &&& plan.ssh.host@ == request.host@
    &&& plan.ssh.port == request.port
    &&& plan.ssh.user@ == request.user@
    &&& plan.ssh.key@ == request.key@
    &&& plan.ssh.passphrase == request.passphrase
    &&& plan.session@ == request.session@
    &&& plan.label@ == request.user@ + "@"@ + request.host@
    &&& plan.recent is Some <==> keeps_recents
    &&& plan.recent matches Some(recent) ==> records(recent, request, now)
}

/// The host as the status line shows it.
pub fn ssh_label(user: &str, host: &str) -> (label: String)
    ensures
        label@ == user@ + "@"@ + host@,
{
    let mut label = user.to_owned();
    label.append("@");
    label.append(host);
    label
}

/// What the window shows.
#[derive(Debug, PartialEq, Eq)]
pub enum ScreenState {
    /// The connection screen, with the failure that led back to it, if any.
    Connection { error: Option<ConnectError> },
    /// The workspace of a session.
    Workspace,
}

/// The window's content.
#[derive(Debug)]
pub struct Shell {
    screen: ScreenState,
    keeps_recents: bool,
}

/// What a [`Shell`] holds.
pub struct ShellView {
    pub screen: ScreenState,
    pub keeps_recents: bool,
}

impl View for Shell {
    type V = ShellView;

    closed spec fn view(&self) -> ShellView {
        ShellView { screen: self.screen, keeps_recents: self.keeps_recents }
    }
}

impl Shell {
    /// Every launch starts on the connection screen.
    pub fn new(keeps_recents: bool) -> (shell: Self)
        ensures
            shell@ == (ShellView {
                screen: ScreenState::Connection { error: None },
                keeps_recents,
            }),
    {
        Shell { screen: ScreenState::Connection { error: None }, keeps_recents }
    }

    /// What the window shows.
    pub fn screen(&self) -> (screen: &ScreenState)
        ensures
            *screen == self@.screen,
    {
        &self.screen
    }

    /// The form was submitted: the workspace shows, and the session is planned.
    pub fn connect(&mut self, request: ConnectRequest, now: u64) -> (plan: SessionPlan)
        ensures
            final(self)@ == (ShellView { screen: ScreenState::Workspace, ..old(self)@ }),
            carries_out(plan, request, old(self)@.keeps_recents, now),
    {
        let recent = if self.keeps_recents {
            Some(
                RecentConnection {
                    host: request.host.clone(),
                    user: request.user.clone(),
                    port: request.port,
                    key: request.key.clone(),
                    session: request.session.clone(),
                    last_connected_unix_secs: now,
                },
            )
        } else {
            None
        };
        let label = ssh_label(request.user.as_str(), request.host.as_str());
        self.screen = ScreenState::Workspace;
        SessionPlan {
            ssh: SshConfig {
                host: request.host,
                port: request.port,
                user: request.user,
                key: request.key,
                passphrase: request.passphrase,
            },
            session: request.session,
            label,
            recent,
        }
    }

    /// The session ended: the connection screen shows, with the reason.
    pub fn return_to_connection_screen(&mut self, reason: Option<ConnectError>)
        ensures
            final(self)@ == (ShellView {
                screen: ScreenState::Connection { error: reason },
                ..old(self)@
            }),
    {
        self.screen = ScreenState::Connection { error: reason };
    }
}

/// The list of recent connections does not depend on the passphrase.
pub proof fn law_recents_ignore_passphrase(
    recent: RecentConnection,
    request: ConnectRequest,
    passphrase: Option<String>,
    now: u64,
)
    requires
        records(recent, request, now),
    ensures
        records(recent, (ConnectRequest { passphrase, ..request }), now),
{
}

/// A connection reaches the host of the form, as the user and with the key of
/// the form, and attaches the form's session; the recent connection, where they
/// are kept, is the same but for the passphrase.
pub proof fn law_connection_is_the_one_asked_for(
    shell: &mut Shell,
    request: ConnectRequest,
    now: u64,
    plan: SessionPlan,
)
    requires
        call_ensures(Shell::connect, (shell, request, now), plan),
    ensures
        plan.ssh.host@ == request.host@,
        plan.ssh.user@ == request.user@,
        plan.ssh.port == request.port,
        plan.ssh.key@ == request.key@,
        plan.ssh.passphrase == request.passphrase,
        plan.session@ == request.session@,
        final(shell)@.screen is Workspace,
        final(shell)@.keeps_recents == old(shell)@.keeps_recents,
        plan.recent is Some <==> old(shell)@.keeps_recents,
        plan.recent matches Some(recent) ==> {
            &&& recent.host@ == plan.ssh.host@
            &&& recent.user@ == plan.ssh.user@
            &&& recent.port == plan.ssh.port
            &&& recent.key@ == plan.ssh.key@
            &&& recent.session@ == plan.session@
            &&& recent.last_connected_unix_secs == now
        },
{
}

/// The label is the user and the host with an at sign between them.
pub proof fn law_label_names_user_and_host(
    user: &str,
    host: &str,
    label: String,
    shell: &mut Shell,
    request: ConnectRequest,
    now: u64,
    plan: SessionPlan,
)
    requires
        call_ensures(ssh_label, (user, host), label),
        call_ensures(Shell::connect, (shell, request, now), plan),
    ensures
        label@.len() == user@.len() + 1 + host@.len(),
        label@.take(user@.len() as int) == user@,
        label@[user@.len() as int] == '@',
        label@.skip(user@.len() as int + 1) == host@,
        request.user@ == user@ && request.host@ == host@ ==> plan.label@ == label@,
{
    reveal_strlit("@");
    assert(label@.take(user@.len() as int) =~= user@);
    assert(label@.skip(user@.len() as int + 1) =~= host@);
}

/// A launch starts on the connection screen without a failure, and a session
/// that ends comes back to it with its reason.
pub proof fn law_sessions_end_on_the_connection_screen(
    keeps_recents: bool,
    fresh: Shell,
    shell: &mut Shell,
    reason: Option<ConnectError>,
)
    requires
        call_ensures(Shell::new, (keeps_recents,), fresh),
        call_ensures(Shell::return_to_connection_screen, (shell, reason), ()),
    ensures
        fresh@.screen matches ScreenState::Connection { error } && error is None,
        fresh@.keeps_recents == keeps_recents,
        final(shell)@.screen matches ScreenState::Connection { error } && error == reason,
        final(shell)@.keeps_recents == old(shell)@.keeps_recents,
{
}

} // verus!
