//! Provisioning the daemon ahead of the terminal: one step after another, each
//! of them best effort. A stale daemon is replaced once.

use vstd::prelude::*;

use crate::session::{Cause, CauseKind, SessionError};
use crate::text;

verus! {

/// The longest wait for the daemon's answer to a greeting, in seconds.
pub const DAEMON_HANDSHAKE_TIMEOUT_SECS: u64 = 10;

/// The remote directory of the daemon's binary where none is configured.
pub const DEFAULT_REMOTE_DIR: &'static str = "$HOME/.rift/bin";

// ---------------------------------------------------------------------------
// Configuration
// ---------------------------------------------------------------------------

/// Where the path of the local daemon binary comes from.
#[derive(Clone, Copy, Debug, PartialEq, Eq, Structural)]
pub enum BinarySource {
    /// The environment of the running program.
    Environment,
    /// What was set when the program was built.
    Baked,
}

/// A setting that is there and not empty.
pub open spec fn is_set(setting: Option<&str>) -> bool {
    setting matches Some(value) && value@.len() > 0
}

fn has_value(setting: Option<&str>) -> (set: bool)
    ensures
        set == is_set(setting),
{
    match setting {
        Some(value) => !value.is_empty(),
        None => false,
    }
}

/// Where the path of the binary comes from: the environment wins over the
/// build. An empty setting counts as none.
pub fn binary_source(environment: Option<&str>, baked: Option<&str>) -> (source: Option<
    BinarySource,
>)
    ensures
        source == if is_set(environment) {
            Some(BinarySource::Environment)
        } else if is_set(baked) {
            Some(BinarySource::Baked)
        } else {
            None
        },
{
    if has_value(environment) {
        Some(BinarySource::Environment)
    } else if has_value(baked) {
        Some(BinarySource::Baked)
    } else {
        None
    }
}

/// The remote directory that the binary is deployed to.
pub fn remote_dir(environment: Option<&str>) -> (dir: String)
    ensures
        dir@ == match environment {
            Some(set) => set@,
            None => DEFAULT_REMOTE_DIR@,
        },
{
    match environment {
        Some(set) => set.to_owned(),
        None => DEFAULT_REMOTE_DIR.to_owned(),
    }
}

/// The project root that a fresh daemon watches: the environment wins over the
/// build.
pub fn project_root(environment: Option<&str>, baked: Option<&str>) -> (root: Option<String>)
    ensures
        match (root, environment, baked) {
            (Some(r), Some(set), _) => r@ == set@,
            (Some(r), None, Some(set)) => r@ == set@,
            (None, None, None) => true,
            _ => false,
        },
{
    match environment {
        Some(set) => Some(set.to_owned()),
        None => match baked {
            Some(set) => Some(set.to_owned()),
            None => None,
        },
    }
}

/// Where the deployed daemon is reached.
#[derive(Debug, PartialEq, Eq)]
pub struct DaemonEndpoint {
    /// The deployed binary.
    pub remote_path: String,
    /// Its socket, beside it.
    pub socket_path: String,
    /// Its log, beside it.
    pub log_path: String,
    /// The root that a fresh daemon watches.
    pub project_root: Option<String>,
}

/// `endpoint` belongs to the binary at `remote_path`.
pub open spec fn is_endpoint(
    endpoint: DaemonEndpoint,
    remote_path: Seq<char>,
    root: Option<Seq<char>>,
) -> bool {
    &&& endpoint.remote_path@ == remote_path
    &&& endpoint.socket_path@ == remote_path + ".sock"@
    &&& endpoint.log_path@ == remote_path + ".log"@
    &&& text::opt_view(endpoint.project_root) == root
}

/// The endpoint of a deployed binary: socket and log stand beside it.
pub fn endpoint_for(remote_path: String, project_root: Option<String>) -> (endpoint: DaemonEndpoint)
    ensures
        is_endpoint(endpoint, remote_path@, text::opt_view(project_root)),
{
    let mut socket_path = remote_path.clone();
    socket_path.append(".sock");
    let mut log_path = remote_path.clone();
    log_path.append(".log");
    DaemonEndpoint { remote_path, socket_path, log_path, project_root }
}

/// Socket and log are two files, neither of them the binary.
pub proof fn law_endpoint_paths_differ(
    endpoint: DaemonEndpoint,
    remote_path: Seq<char>,
    root: Option<Seq<char>>,
)
    requires
        is_endpoint(endpoint, remote_path, root),
    ensures
        endpoint.socket_path@ != endpoint.log_path@,
        endpoint.socket_path@ != endpoint.remote_path@,
        endpoint.log_path@ != endpoint.remote_path@,
{
    reveal_strlit(".sock");
    reveal_strlit(".log");
    assert(endpoint.socket_path@.len() == remote_path.len() + 5);
    assert(endpoint.log_path@.len() == remote_path.len() + 4);
}

// ---------------------------------------------------------------------------
// Steps
// ---------------------------------------------------------------------------

/// How the daemon answered a greeting.
#[derive(Debug, PartialEq, Eq)]
pub enum HandshakeReply {
    /// It speaks the client's version.
    Ready,
    /// It speaks another version.
    VersionMismatch { daemon: u32 },
    /// It did not answer, or not in time.
    Failed(Cause),
}

/// Where provisioning stands.
#[derive(Clone, Copy, Debug, PartialEq, Eq, Structural)]
pub enum ProvisionStage {
    /// Reading the local binary.
    Read,
    /// Deploying it.
    Deploy,
    /// Stopping the daemon whose binary was replaced.
    StopChanged,
    /// Attaching to the daemon, or starting one.
    Attach,
    /// Greeting it.
    Handshake,
    /// Stopping a daemon that speaks another version.
    StopStale,
    /// Deploying again.
    Redeploy,
    /// Starting the replacement.
    Respawn,
    /// Greeting the replacement.
    Rehandshake,
    /// The daemon is ready.
    Ready,
    /// There is no daemon; the session goes on without.
    Unavailable,
    /// The replacement speaks another version too; the session fails.
    Skew { daemon: u32 },
}

/// What came of a step.
#[derive(Debug, PartialEq, Eq)]
pub enum ProvisionEvent {
    BinaryRead { ok: bool },
    /// The remote path and whether the binary was uploaded, or nothing where
    /// deploying failed.
    Deployed(Option<(String, bool)>),
    Stopped { ok: bool },
    Attached { ok: bool },
    Handshaken(HandshakeReply),
}

/// The step that a stage asks for.
#[derive(Clone, Copy, Debug, PartialEq, Eq, Structural)]
pub enum ProvisionAction {
    ReadBinary,
    Deploy,
    StopDaemon,
    ConnectOrSpawn,
    Handshake,
    Finish,
}

/// The step that a stage asks for.
pub open spec fn action_of(stage: ProvisionStage) -> ProvisionAction {
    match stage {
        ProvisionStage::Read => ProvisionAction::ReadBinary,
        ProvisionStage::Deploy | ProvisionStage::Redeploy => ProvisionAction::Deploy,
        ProvisionStage::StopChanged | ProvisionStage::StopStale => ProvisionAction::StopDaemon,
        ProvisionStage::Attach | ProvisionStage::Respawn => ProvisionAction::ConnectOrSpawn,
        ProvisionStage::Handshake | ProvisionStage::Rehandshake => ProvisionAction::Handshake,
        ProvisionStage::Ready | ProvisionStage::Unavailable | ProvisionStage::Skew {
            ..
        } => ProvisionAction::Finish,
    }
}

/// The event tells of the step that the stage asks for.
pub open spec fn expects(stage: ProvisionStage, event: ProvisionEvent) -> bool {
    match event {
        ProvisionEvent::BinaryRead { .. } => action_of(stage) == ProvisionAction::ReadBinary,
        ProvisionEvent::Deployed(_) => action_of(stage) == ProvisionAction::Deploy,
        ProvisionEvent::Stopped { .. } => action_of(stage) == ProvisionAction::StopDaemon,
        ProvisionEvent::Attached { .. } => action_of(stage) == ProvisionAction::ConnectOrSpawn,
        ProvisionEvent::Handshaken(_) => action_of(stage) == ProvisionAction::Handshake,
    }
}

/// The stage that follows.
pub open spec fn next_stage(stage: ProvisionStage, event: ProvisionEvent) -> ProvisionStage {
    match (stage, event) {
        (ProvisionStage::Read, ProvisionEvent::BinaryRead { ok: true }) => ProvisionStage::Deploy,
        (ProvisionStage::Deploy, ProvisionEvent::Deployed(Some((_, uploaded)))) => if uploaded {
            ProvisionStage::StopChanged
        } else {
            ProvisionStage::Attach
        },
        (ProvisionStage::StopChanged, ProvisionEvent::Stopped { .. }) => ProvisionStage::Attach,
        (ProvisionStage::Attach, ProvisionEvent::Attached { ok: true }) => {
            ProvisionStage::Handshake
        },
        (ProvisionStage::Handshake, ProvisionEvent::Handshaken(reply)) => match reply {
            HandshakeReply::Ready => ProvisionStage::Ready,
            HandshakeReply::VersionMismatch { .. } => ProvisionStage::StopStale,
            HandshakeReply::Failed(_) => ProvisionStage::Unavailable,
        },
        (ProvisionStage::StopStale, ProvisionEvent::Stopped { ok: true }) => {
            ProvisionStage::Redeploy
        },
        (ProvisionStage::Redeploy, ProvisionEvent::Deployed(Some(_))) => ProvisionStage::Respawn,
        (ProvisionStage::Respawn, ProvisionEvent::Attached { ok: true }) => {
            ProvisionStage::Rehandshake
        },
        (ProvisionStage::Rehandshake, ProvisionEvent::Handshaken(reply)) => match reply {
            HandshakeReply::Ready => ProvisionStage::Ready,
            HandshakeReply::VersionMismatch { daemon } => ProvisionStage::Skew { daemon },
            HandshakeReply::Failed(_) => ProvisionStage::Unavailable,
        },
        _ => ProvisionStage::Unavailable,
    }
}

/// What provisioning ended in.
#[derive(Debug, PartialEq, Eq)]
pub enum ProvisionOutcome {
    Ready(DaemonEndpoint),
    Unavailable,
    Skew(SessionError),
}

/// The message of a version mismatch that outlives the replacement.
pub open spec fn skew_text(client: u32, daemon: u32) -> Seq<char> {
    "daemon protocol version mismatch persists after replacement (client v"@ + text::decimal_text(
        client as nat,
    ) + ", daemon v"@ + text::decimal_text(daemon as nat) + ")"@
}

/// A run of provisioning.
#[derive(Debug)]
pub struct Provisioner {
    stage: ProvisionStage,
    endpoint: Option<DaemonEndpoint>,
    project_root: Option<String>,
}

/// What a [`Provisioner`] holds.
pub struct ProvisionerView {
    pub stage: ProvisionStage,
    pub endpoint: Option<DaemonEndpoint>,
    pub root: Option<Seq<char>>,
}

/// The stage comes behind the first deployment.
pub open spec fn is_deployed(stage: ProvisionStage) -> bool {
    match stage {
        ProvisionStage::Read | ProvisionStage::Deploy | ProvisionStage::Unavailable => false,
        _ => true,
    }
}

impl View for Provisioner {
    type V = ProvisionerView;

    closed spec fn view(&self) -> ProvisionerView {
        ProvisionerView {
            stage: self.stage,
            endpoint: self.endpoint,
            root: text::opt_view(self.project_root),
        }
    }
}

impl Provisioner {
    /// What was deployed can be reached.
    pub open spec fn wf(&self) -> bool {
        is_deployed(self@.stage) ==> self@.endpoint is Some
    }

    /// Starts provisioning; there is nothing to do without a binary.
    pub fn new(source: Option<BinarySource>, project_root: Option<String>) -> (run: Self)
        ensures
            run.wf(),
            run@.stage == if source is Some {
                ProvisionStage::Read
            } else {
                ProvisionStage::Unavailable
            },
            run@.endpoint is None,
            run@.root == text::opt_view(project_root),
    {
        let stage = match source {
            Some(_) => ProvisionStage::Read,
            None => ProvisionStage::Unavailable,
        };
        Provisioner { stage, endpoint: None, project_root }
    }

    /// Where provisioning stands.
    pub fn stage(&self) -> (stage: ProvisionStage)
        ensures
            stage == self@.stage,
    {
        self.stage
    }

    /// The endpoint of what was deployed.
    pub fn endpoint(&self) -> (endpoint: Option<&DaemonEndpoint>)
        ensures
            endpoint is Some <==> self@.endpoint is Some,
            endpoint matches Some(e) ==> self@.endpoint == Some(*e),
    {
        match &self.endpoint {
            Some(endpoint) => Some(endpoint),
            None => None,
        }
    }

    /// The step to take next.
    pub fn action(&self) -> (action: ProvisionAction)
        ensures
            action == action_of(self@.stage),
    {
        match self.stage {
            ProvisionStage::Read => ProvisionAction::ReadBinary,
            ProvisionStage::Deploy => ProvisionAction::Deploy,
            ProvisionStage::Redeploy => ProvisionAction::Deploy,
            ProvisionStage::StopChanged => ProvisionAction::StopDaemon,
            ProvisionStage::StopStale => ProvisionAction::StopDaemon,
            ProvisionStage::Attach => ProvisionAction::ConnectOrSpawn,
            ProvisionStage::Respawn => ProvisionAction::ConnectOrSpawn,
            ProvisionStage::Handshake => ProvisionAction::Handshake,
            ProvisionStage::Rehandshake => ProvisionAction::Handshake,
            ProvisionStage::Ready => ProvisionAction::Finish,
            ProvisionStage::Unavailable => ProvisionAction::Finish,
            ProvisionStage::Skew { .. } => ProvisionAction::Finish,
        }
    }

    /// A step was taken. The first deployment fixes the endpoint.
    pub fn advance(&mut self, event: ProvisionEvent)
        requires
            old(self).wf(),
            expects(old(self)@.stage, event),
        ensures
            final(self).wf(),
            final(self)@.stage == next_stage(old(self)@.stage, event),
            final(self)@.root == old(self)@.root,
            match (old(self)@.stage, event) {
                (ProvisionStage::Deploy, ProvisionEvent::Deployed(Some((remote_path, _)))) => {
                    &&& final(self)@.endpoint is Some
                    &&& is_endpoint(final(self)@.endpoint->0, remote_path@, old(self)@.root)
                },
                _ => final(self)@.endpoint == old(self)@.endpoint,
            },
    {
        self.stage = match event {
            ProvisionEvent::BinaryRead { ok } => if ok {
                ProvisionStage::Deploy
            } else {
                ProvisionStage::Unavailable
            },
            ProvisionEvent::Deployed(None) => ProvisionStage::Unavailable,
            ProvisionEvent::Deployed(Some((remote_path, uploaded))) => match self.stage {
                ProvisionStage::Deploy => {
                    let root = self.project_root.clone();
                    proof {
                        assert(text::opt_view(root) == text::opt_view(self.project_root));
                    }
                    self.endpoint = Some(endpoint_for(remote_path, root));
                    if uploaded {
                        ProvisionStage::StopChanged
                    } else {
                        ProvisionStage::Attach
                    }
                },
                _ => ProvisionStage::Respawn,
            },
            ProvisionEvent::Stopped { ok } => match self.stage {
                ProvisionStage::StopChanged => ProvisionStage::Attach,
                _ => if ok {
                    ProvisionStage::Redeploy
                } else {
                    ProvisionStage::Unavailable
                },
            },
            ProvisionEvent::Attached { ok } => if ok {
                match self.stage {
                    ProvisionStage::Attach => ProvisionStage::Handshake,
                    _ => ProvisionStage::Rehandshake,
                }
            } else {
                ProvisionStage::Unavailable
            },
            ProvisionEvent::Handshaken(HandshakeReply::Ready) => ProvisionStage::Ready,
            ProvisionEvent::Handshaken(HandshakeReply::Failed(_)) => ProvisionStage::Unavailable,
            ProvisionEvent::Handshaken(
                HandshakeReply::VersionMismatch { daemon },
            ) => match self.stage {
                ProvisionStage::Handshake => ProvisionStage::StopStale,
                _ => ProvisionStage::Skew { daemon },
            },
        };
    }

    /// What provisioning ended in.
    pub fn finish(self, client_version: u32) -> (outcome: ProvisionOutcome)
        requires
            self.wf(),
            action_of(self@.stage) == ProvisionAction::Finish,
        ensures
            match self@.stage {
                ProvisionStage::Ready => outcome == ProvisionOutcome::Ready(self@.endpoint->0),
                ProvisionStage::Skew { daemon } => outcome matches ProvisionOutcome::Skew(error)
                    && error.wf() && error@.len() == 1 && error@[0].kind == CauseKind::Untyped
                    && error@[0].message@ == skew_text(client_version, daemon),
                _ => outcome is Unavailable,
            },
    {
        match self.stage {
            ProvisionStage::Ready => match self.endpoint {
                Some(endpoint) => ProvisionOutcome::Ready(endpoint),
                None => ProvisionOutcome::Unavailable,
            },
            ProvisionStage::Skew { daemon } => {
                let mut message = "daemon protocol version mismatch persists after replacement (client v".to_owned();
                message.append(text::decimal(client_version as u64).as_str());
                message.append(", daemon v");
                message.append(text::decimal(daemon as u64).as_str());
                message.append(")");
                ProvisionOutcome::Skew(SessionError::msg(message))
            },
            _ => ProvisionOutcome::Unavailable,
        }
    }
}

// ---------------------------------------------------------------------------
// Laws
// ---------------------------------------------------------------------------

/// How far along a stage is.
pub open spec fn progress(stage: ProvisionStage) -> nat {
    match stage {
        ProvisionStage::Read => 0,
        ProvisionStage::Deploy => 1,
        ProvisionStage::StopChanged => 2,
        ProvisionStage::Attach => 3,
        ProvisionStage::Handshake => 4,
        ProvisionStage::StopStale => 5,
        ProvisionStage::Redeploy => 6,
        ProvisionStage::Respawn => 7,
        ProvisionStage::Rehandshake => 8,
        _ => 9,
    }
}

/// Every step leads on, so that provisioning ends after nine steps at the
/// latest and replaces a stale daemon once at most.
pub proof fn law_provisioning_ends(stage: ProvisionStage, event: ProvisionEvent)
    requires
        expects(stage, event),
    ensures
        progress(stage) < progress(next_stage(stage, event)) <= 9,
        progress(next_stage(stage, event)) == 9 <==> action_of(next_stage(stage, event))
            == ProvisionAction::Finish,
{
}

/// A daemon is stopped only where its binary was replaced or where it speaks
/// another version: a healthy one is left alone.
pub proof fn law_healthy_daemon_is_not_stopped(stage: ProvisionStage, event: ProvisionEvent)
    requires
        expects(stage, event),
        action_of(next_stage(stage, event)) == ProvisionAction::StopDaemon,
    ensures
        event matches ProvisionEvent::Deployed(Some((_, uploaded))) ==> uploaded,
        event is Deployed || event matches ProvisionEvent::Handshaken(
            HandshakeReply::VersionMismatch { .. },
        ),
{
}

/// The session fails only where the replacement speaks another version too.
pub proof fn law_only_persisting_skew_fails(
    stage: ProvisionStage,
    event: ProvisionEvent,
    daemon: u32,
)
    requires
        expects(stage, event),
        next_stage(stage, event) == (ProvisionStage::Skew { daemon }),
    ensures
        stage == ProvisionStage::Rehandshake,
        event == ProvisionEvent::Handshaken(HandshakeReply::VersionMismatch { daemon }),
{
}

// ---------------------------------------------------------------------------
// Laws of the calls
// ---------------------------------------------------------------------------

/// The environment goes before what was built in. Of the binary's path an empty
/// setting counts as none.
pub proof fn law_environment_goes_first(
    environment: Option<&str>,
    baked: Option<&str>,
    source: Option<BinarySource>,
    dir: String,
    root: Option<String>,
)
    requires
        call_ensures(binary_source, (environment, baked), source),
        call_ensures(remote_dir, (environment,), dir),
        call_ensures(project_root, (environment, baked), root),
    ensures
        environment is Some && (environment->0)@.len() > 0 ==> source == Some(
            BinarySource::Environment,
        ),
        (environment is None || (environment->0)@.len() == 0) && baked is Some && (baked->0)@.len()
            > 0 ==> source == Some(BinarySource::Baked),
        (environment is None || (environment->0)@.len() == 0) && (baked is None || (
        baked->0)@.len() == 0) ==> source is None,
        environment is Some ==> dir@ == (environment->0)@,
        environment is None ==> dir@ == "$HOME/.rift/bin"@,
        environment is Some ==> root is Some && (root->0)@ == (environment->0)@,
        environment is None && baked is Some ==> root is Some && (root->0)@ == (baked->0)@,
        environment is None && baked is None ==> root is None,
{
}

/// Socket and log are the binary's path with an ending of their own.
pub proof fn law_endpoint_stands_beside_the_binary(
    remote_path: String,
    project_root: Option<String>,
    endpoint: DaemonEndpoint,
)
    requires
        call_ensures(endpoint_for, (remote_path, project_root), endpoint),
    ensures
        endpoint.remote_path@ == remote_path@,
        endpoint.socket_path@ == remote_path@ + ".sock"@,
        endpoint.log_path@ == remote_path@ + ".log"@,
        match project_root {
            Some(root) => endpoint.project_root is Some && (endpoint.project_root->0)@ == root@,
            None => endpoint.project_root is None,
        },
{
}

/// Provisioning starts by reading the binary, if there is one.
pub proof fn law_provisioning_starts_with_the_binary(
    source: Option<BinarySource>,
    project_root: Option<String>,
    run: Provisioner,
    action: ProvisionAction,
)
    requires
        call_ensures(Provisioner::new, (source, project_root), run),
        call_ensures(Provisioner::action, (&run,), action),
    ensures
        source is Some ==> action is ReadBinary,
        source is None ==> action is Finish && run@.stage is Unavailable,
        run@.endpoint is None,
        match project_root {
            Some(root) => run@.root == Some(root@),
            None => run@.root is None,
        },
{
}

/// Each stage asks for its own step.
pub proof fn law_stage_asks_for_its_step(run: Provisioner, action: ProvisionAction)
    requires
        call_ensures(Provisioner::action, (&run,), action),
    ensures
        action is ReadBinary <==> run@.stage is Read,
        action is Deploy <==> run@.stage is Deploy || run@.stage is Redeploy,
        action is StopDaemon <==> run@.stage is StopChanged || run@.stage is StopStale,
        action is ConnectOrSpawn <==> run@.stage is Attach || run@.stage is Respawn,
        action is Handshake <==> run@.stage is Handshake || run@.stage is Rehandshake,
        action is Finish <==> run@.stage is Ready || run@.stage is Unavailable || run@.stage
            is Skew,
{
}

/// What follows a step: a binary is deployed, a replaced daemon is stopped
/// before the new one is reached, a reached one is greeted, and one of another
/// version is stopped and deployed again, once. Whatever fails leaves the
/// session without a daemon, but for a daemon that could not be stopped because
/// its binary changed.
pub proof fn law_steps_follow_one_another(
    run: &mut Provisioner,
    event: ProvisionEvent,
    asked: ProvisionAction,
    next: ProvisionAction,
)
    requires
        expects(old(run)@.stage, event),
        call_ensures(Provisioner::action, (old(run),), asked),
        call_ensures(Provisioner::advance, (run, event), ()),
        call_ensures(Provisioner::action, (final(run),), next),
    ensures
        event matches ProvisionEvent::BinaryRead { ok } ==> (ok ==> next is Deploy) && (!ok
            ==> final(run)@.stage is Unavailable),
        event matches ProvisionEvent::Deployed(deployed) ==> {
            &&& deployed is None ==> final(run)@.stage is Unavailable
            &&& deployed matches Some((_, uploaded)) ==> {
                &&& old(run)@.stage is Deploy && uploaded ==> next is StopDaemon
                &&& old(run)@.stage is Deploy && !uploaded ==> next is ConnectOrSpawn
                &&& old(run)@.stage is Redeploy ==> next is ConnectOrSpawn
            }
        },
        event matches ProvisionEvent::Stopped { ok } ==> {
            &&& old(run)@.stage is StopChanged ==> next is ConnectOrSpawn
            &&& old(run)@.stage is StopStale && ok ==> next is Deploy
            &&& old(run)@.stage is StopStale && !ok ==> final(run)@.stage is Unavailable
        },
        event matches ProvisionEvent::Attached { ok } ==> (ok ==> next is Handshake) && (!ok
            ==> final(run)@.stage is Unavailable),
        event matches ProvisionEvent::Handshaken(reply) ==> {
            &&& reply is Ready ==> final(run)@.stage is Ready
            &&& reply is Failed ==> final(run)@.stage is Unavailable
            &&& reply matches HandshakeReply::VersionMismatch { daemon } ==> {
                &&& old(run)@.stage is Handshake ==> final(run)@.stage is StopStale
                &&& old(run)@.stage is Rehandshake ==> final(run)@.stage == (
                ProvisionStage::Skew { daemon })
            }
        },
        final(run)@.stage is Attach ==> old(run)@.stage is Deploy || old(run)@.stage is StopChanged,
        final(run)@.stage is Respawn ==> old(run)@.stage is Redeploy,
        final(run)@.stage is Handshake ==> old(run)@.stage is Attach,
        final(run)@.stage is Rehandshake ==> old(run)@.stage is Respawn,
        final(run)@.root == old(run)@.root,
{
}

/// The first deployment tells where the daemon is, for good.
pub proof fn law_first_deployment_fixes_the_endpoint(
    run: &mut Provisioner,
    event: ProvisionEvent,
)
    requires
        expects(old(run)@.stage, event),
        call_ensures(Provisioner::advance, (run, event), ()),
    ensures
        old(run)@.stage is Deploy ==> (event matches ProvisionEvent::Deployed(Some((path, _)))
            ==> final(run)@.endpoint is Some && (final(run)@.endpoint->0).remote_path@ == path@ && (
        final(run)@.endpoint->0).socket_path@ == path@ + ".sock"@ && text::opt_view(
            (final(run)@.endpoint->0).project_root,
        ) == old(run)@.root),
        !(old(run)@.stage is Deploy) ==> final(run)@.endpoint == old(run)@.endpoint,
{
}

/// What provisioning ends in: the endpoint, nothing, or a failure that names
/// both versions and is not tried again.
pub proof fn law_provisioning_ends_in_its_stage(
    run: Provisioner,
    client_version: u32,
    outcome: ProvisionOutcome,
    client: String,
    daemon: u32,
    served: String,
)
    requires
        call_ensures(Provisioner::finish, (run, client_version), outcome),
        call_ensures(text::decimal, (client_version as u64,), client),
        call_ensures(text::decimal, (daemon as u64,), served),
    ensures
        run@.stage is Ready ==> outcome == ProvisionOutcome::Ready(run@.endpoint->0),
        run@.stage is Unavailable ==> outcome is Unavailable,
        run@.stage == (ProvisionStage::Skew { daemon }) ==> (
        outcome matches ProvisionOutcome::Skew(error) && error@.len() == 1 && error@[0].kind
            is Untyped && error@[0].message@
            == "daemon protocol version mismatch persists after replacement (client v"@ + client@
            + ", daemon v"@ + served@ + ")"@),
{
}

} // verus!
