//! Drivers and the MEAL façade: which driver a connection type selects, and
//! the decisions each driver makes before its backend runs.

use vstd::prelude::*;

use crate::config::{
    groups, lookup, missing_error, present, token_error, tokens_filled, tokens_of, Category,
    ConfigError, DriverKind, MEALArgs,
};
use crate::framing::{Relay, RelayView, Tokens, TokensView, Phase};
use crate::text::{cat, chars_of, starts_with, string_of};

verus! {

/// The driver that a connection type selects.
pub open spec fn kind_of_tag(tag: Seq<char>) -> Option<DriverKind> {
    if tag == "local"@ {
        Some(DriverKind::Local)
    } else if tag == "remote"@ {
        Some(DriverKind::Remote)
    } else {
        None
    }
}

/// Selects the driver for a connection type; an unknown type is named in the error.
pub fn driver_kind(tag: &str) -> (r: Result<DriverKind, ConfigError>)
    ensures
        match r {
            Ok(k) => kind_of_tag(tag@) == Some(k),
            Err(e) => kind_of_tag(tag@) is None && (e matches ConfigError::UnknownDriver(t)
                && t@ == tag@),
        },
{
    let t = String::from_str(tag);
    if t == String::from_str("local") {
        Ok(DriverKind::Local)
    } else if t == String::from_str("remote") {
        Ok(DriverKind::Remote)
    } else {
        Err(ConfigError::UnknownDriver(t))
    }
}

/// Why a backend could not be started.
#[derive(Debug)]
pub enum SpawnError {
    /// The descriptor lacks what this driver needs.
    Config(ConfigError),
    /// The working directory does not exist.
    PathNotFound(String),
    /// The transport connection could not be opened.
    ConnectFailed(String),
    /// The remote host refused the credentials.
    AuthenticationFailed,
    /// The remote host asked for a new password, with this prompt.
    PasswordChangeRequested(String),
    /// The session channel could not be opened.
    SessionFailed(String),
    /// The command could not be started.
    LaunchFailed(String),
}

/// `"cd " + path + " && " + command`: the command run from the working directory.
pub open spec fn shell_line(path: Seq<char>, command: Seq<char>) -> Seq<char> {
    "cd "@ + path + " && "@ + command
}

/// Builds `shell_line(path, command)`.
fn make_shell_line(path: &str, command: &str) -> (r: String)
    ensures
        r@ == shell_line(path@, command@),
{
    let mut v = chars_of("cd ");
    let mut p = chars_of(path);
    v.append(&mut p);
    let mut sep = chars_of(" && ");
    v.append(&mut sep);
    let mut c = chars_of(command);
    v.append(&mut c);
    string_of(v.as_slice())
}

/// The relay state in which every backend starts.
pub open spec fn fresh_relay(t: TokensView) -> RelayView {
    RelayView { tokens: t, phase: Phase::AwaitingReady, inside: false, pending: seq![] }
}

/// What a driver hands over to the task that runs its backend: the shell line
/// to run and the relay that follows the backend's streams.
pub struct Launch {
    pub command: String,
    pub relay: Relay,
}

/// Runs the backend as a child process on this machine.
pub struct LocalDriver {
    args: MEALArgs,
    tokens: Tokens,
}

impl LocalDriver {
    /// The descriptor the driver was built from.
    pub closed spec fn descriptor(&self) -> Seq<Map<Seq<char>, Seq<char>>> {
        groups(&self.args)
    }

    pub closed spec fn wf(&self) -> bool {
        &&& tokens_filled(groups(&self.args))
        &&& self.tokens@ == tokens_of(groups(&self.args))
        &&& self.tokens@.wf()
    }

    /// Builds the driver; fails when a protocol token is missing or empty.
    pub fn new(meal_args: MEALArgs) -> (r: Result<LocalDriver, ConfigError>)
        ensures
            match r {
                Ok(d) => d.wf() && d.descriptor() == groups(&meal_args) && tokens_filled(
                    groups(&meal_args),
                ),
                Err(e) => !tokens_filled(groups(&meal_args)) && token_error(
                    groups(&meal_args),
                    DriverKind::Local,
                    e,
                ),
            },
    {
        let tokens = meal_args.tokens(DriverKind::Local)?;
        Ok(LocalDriver { args: meal_args, tokens })
    }

    /// The working directory the command runs in.
    pub fn working_dir(&self) -> (r: Result<&String, ConfigError>)
        ensures
            match r {
                Ok(v) => lookup(self.descriptor(), Category::Execution, "path"@) == Some(v@),
                Err(e) => !present(self.descriptor(), Category::Execution, "path"@) && missing_error(
                    self.descriptor(),
                    Some(DriverKind::Local),
                    Category::Execution,
                    "path"@,
                    e,
                ),
            },
    {
        self.args.field_for(DriverKind::Local, Category::Execution, "path")
    }

    /// Decides whether the backend may start, given whether the working
    /// directory exists: the shell line to run and a fresh relay, or why not.
    /// Nothing is started unless this returns `Ok`.
    pub fn launch(&self, workdir_exists: bool) -> (r: Result<Launch, SpawnError>)
        requires
            self.wf(),
        ensures
            ({
                let cfg = self.descriptor();
                let d = Some(DriverKind::Local);
                let path = lookup(cfg, Category::Execution, "path"@);
                let cmd = lookup(cfg, Category::Execution, "command"@);
                let ok = path is Some && cmd is Some;
                &&& r is Ok <==> ok && workdir_exists
                &&& r matches Ok(l) ==> l.command@ == shell_line(path->0, cmd->0) && l.relay@
                    == fresh_relay(tokens_of(cfg)) && l.relay.wf()
                &&& path is None ==> (r matches Err(SpawnError::Config(e)) && missing_error(
                    cfg,
                    d,
                    Category::Execution,
                    "path"@,
                    e,
                ))
                &&& path is Some && cmd is None ==> (r matches Err(SpawnError::Config(e))
                    && missing_error(cfg, d, Category::Execution, "command"@, e))
                &&& ok && !workdir_exists ==> (r matches Err(SpawnError::PathNotFound(p)) && p@
                    == path->0)
            }),
    {
        let path = match self.args.field_for(DriverKind::Local, Category::Execution, "path") {
            Ok(p) => p,
            Err(e) => return Err(SpawnError::Config(e)),
        };
        let command = match self.args.field_for(DriverKind::Local, Category::Execution, "command") {
            Ok(c) => c,
            Err(e) => return Err(SpawnError::Config(e)),
        };
        if !workdir_exists {
            return Err(SpawnError::PathNotFound(path.clone()));
        }
        let line = make_shell_line(path.as_str(), command.as_str());
        Ok(Launch { command: line, relay: Relay::new(self.tokens.duplicate()) })
    }
}

/// Where to reach a remote backend and what to run there.
pub struct RemoteTarget {
    /// `host:port`.
    pub address: String,
    pub user: String,
    pub password: String,
    pub path: String,
    pub command: String,
}

/// `host + ":" + port`.
pub open spec fn address_of(host: Seq<char>, port: Seq<char>) -> Seq<char> {
    host + ":"@ + port
}

/// Runs the backend as a command in a session on a remote host.
pub struct SSHDriver {
    args: MEALArgs,
    tokens: Tokens,
}

/// The remote target that a descriptor describes, when all six values are
/// there.
pub open spec fn target_ok(cfg: Seq<Map<Seq<char>, Seq<char>>>) -> bool {
    &&& present(cfg, Category::Connection, "host"@)
    &&& present(cfg, Category::Connection, "port"@)
    &&& present(cfg, Category::Connection, "user"@)
    &&& present(cfg, Category::Connection, "pass"@)
    &&& present(cfg, Category::Execution, "path"@)
    &&& present(cfg, Category::Execution, "command"@)
}

/// The error for the first of the six target values that is absent: it names
/// the remote driver.
pub open spec fn target_error(cfg: Seq<Map<Seq<char>, Seq<char>>>, e: ConfigError) -> bool {
    let d = Some(DriverKind::Remote);
    if !present(cfg, Category::Connection, "host"@) {
        missing_error(cfg, d, Category::Connection, "host"@, e)
    } else if !present(cfg, Category::Connection, "port"@) {
        missing_error(cfg, d, Category::Connection, "port"@, e)
    } else if !present(cfg, Category::Connection, "user"@) {
        missing_error(cfg, d, Category::Connection, "user"@, e)
    } else if !present(cfg, Category::Connection, "pass"@) {
        missing_error(cfg, d, Category::Connection, "pass"@, e)
    } else if !present(cfg, Category::Execution, "path"@) {
        missing_error(cfg, d, Category::Execution, "path"@, e)
    } else {
        missing_error(cfg, d, Category::Execution, "command"@, e)
    }
}

impl SSHDriver {
    /// The descriptor the driver was built from.
    pub closed spec fn descriptor(&self) -> Seq<Map<Seq<char>, Seq<char>>> {
        groups(&self.args)
    }

    pub closed spec fn wf(&self) -> bool {
        &&& tokens_filled(groups(&self.args))
        &&& self.tokens@ == tokens_of(groups(&self.args))
        &&& self.tokens@.wf()
    }

    /// Builds the driver; fails when a protocol token is missing or empty.
    pub fn new(meal_args: MEALArgs) -> (r: Result<SSHDriver, ConfigError>)
        ensures
            match r {
                Ok(d) => d.wf() && d.descriptor() == groups(&meal_args) && tokens_filled(
                    groups(&meal_args),
                ),
                Err(e) => !tokens_filled(groups(&meal_args)) && token_error(
                    groups(&meal_args),
                    DriverKind::Remote,
                    e,
                ),
            },
    {
        let tokens = meal_args.tokens(DriverKind::Remote)?;
        Ok(SSHDriver { args: meal_args, tokens })
    }

    /// Where to connect, as whom, and what to run: the values of `host`,
    /// `port`, `user` and `pass` among the connection parameters and of `path`
    /// and `command` among the execution parameters. Any of them may be empty
    /// (an empty password is a credential like any other).
    pub fn target(&self) -> (r: Result<RemoteTarget, ConfigError>)
        ensures
            ({
                let cfg = self.descriptor();
                &&& r is Ok <==> target_ok(cfg)
                &&& r matches Ok(t) ==> {
                    &&& t.address@ == address_of(
                        cfg[1]["host"@],
                        cfg[1]["port"@],
                    )
                    &&& t.user@ == cfg[1]["user"@]
                    &&& t.password@ == cfg[1]["pass"@]
                    &&& t.path@ == cfg[2]["path"@]
                    &&& t.command@ == cfg[2]["command"@]
                }
                &&& r matches Err(e) ==> target_error(cfg, e)
            }),
    {
        let host = self.args.field_for(DriverKind::Remote, Category::Connection, "host")?;
        let port = self.args.field_for(DriverKind::Remote, Category::Connection, "port")?;
        let user = self.args.field_for(DriverKind::Remote, Category::Connection, "user")?;
        let pass = self.args.field_for(DriverKind::Remote, Category::Connection, "pass")?;
        let path = self.args.field_for(DriverKind::Remote, Category::Execution, "path")?;
        let command = self.args.field_for(DriverKind::Remote, Category::Execution, "command")?;
        let mut a = chars_of(host.as_str());
        let mut colon = chars_of(":");
        a.append(&mut colon);
        let mut p = chars_of(port.as_str());
        a.append(&mut p);
        Ok(
            RemoteTarget {
                address: string_of(a.as_slice()),
                user: user.clone(),
                password: pass.clone(),
                path: path.clone(),
                command: command.clone(),
            },
        )
    }

    /// Starts setting up a session for the backend: the first step to take,
    /// and the state that follows the steps that come after.
    pub fn begin(&self) -> (r: Result<(SessionSetup, SessionAction), ConfigError>)
        requires
            self.wf(),
        ensures
            r is Ok <==> target_ok(self.descriptor()),
            r matches Err(e) ==> target_error(self.descriptor(), e),
            r matches Ok((s, a)) ==> {
                let cfg = self.descriptor();
                &&& s.wf()
                &&& s.stage() == Stage::Connecting
                &&& !s.transport_open()
                &&& !s.channel_open()
                &&& s.target_user() == cfg[1]["user"@]
                &&& s.target_password() == cfg[1]["pass"@]
                &&& s.target_path() == cfg[2]["path"@]
                &&& s.target_command() == cfg[2]["command"@]
                &&& s.tokens_view() == tokens_of(cfg)
                &&& a matches SessionAction::Connect(addr) && addr@ == address_of(
                    cfg[1]["host"@],
                    cfg[1]["port"@],
                )
            },
    {
        let target = self.target()?;
        let addr = target.address.clone();
        Ok(
            (
                SessionSetup {
                    target,
                    tokens: self.tokens.duplicate(),
                    stage: Stage::Connecting,
                    transport_open: false,
                    channel_open: false,
                },
                SessionAction::Connect(addr),
            ),
        )
    }
}

/// Where a session setup stands.
#[derive(Clone, Copy, Debug, PartialEq, Eq, Structural)]
pub enum Stage {
    Connecting,
    Authenticating,
    Opening,
    CheckingPath,
    Executing,
    Started,
    Failed,
}

/// What happened to the last step of a session setup.
pub enum SessionEvent {
    Connected,
    ConnectFailed(String),
    AuthAccepted,
    AuthRejected,
    /// The host asked for a new password instead, with this prompt.
    PasswordChangeRequested(String),
    /// The transport failed while authenticating.
    AuthError(String),
    SessionOpened,
    SessionFailed(String),
    /// Whether the working directory exists on the remote host.
    PathChecked(bool),
    /// The check of the working directory could not be made.
    PathCheckFailed(String),
    ExecStarted,
    ExecFailed(String),
}

/// The next step of a session setup.
pub enum SessionAction {
    /// Open a transport connection to `host:port`.
    Connect(String),
    /// Authenticate with a user name and password.
    Authenticate { user: String, password: String },
    /// Open a session channel.
    OpenSession,
    /// Check that this directory exists on the remote host.
    CheckPath(String),
    /// Execute this shell line in the session.
    Execute(String),
    /// The command runs: relay its streams through this relay.
    Relay(Relay),
    /// Give up with this error, closing the transport connection if it is open.
    Abort { error: SpawnError, close_transport: bool },
    /// The event does not belong to this stage: nothing to do.
    Ignore,
}

/// The decisions of a remote driver while it sets up a session, one event at
/// a time. The task that talks to the remote host carries out each action and
/// hands back what came of it.
pub struct SessionSetup {
    target: RemoteTarget,
    tokens: Tokens,
    stage: Stage,
    transport_open: bool,
    channel_open: bool,
}

/// The stage after `e` in stage `s`.
pub open spec fn next_stage(s: Stage, e: SessionEvent) -> Stage {
    match (s, e) {
        (Stage::Connecting, SessionEvent::Connected) => Stage::Authenticating,
        (Stage::Authenticating, SessionEvent::AuthAccepted) => Stage::Opening,
        (Stage::Opening, SessionEvent::SessionOpened) => Stage::CheckingPath,
        (Stage::CheckingPath, SessionEvent::PathChecked(true)) => Stage::Executing,
        (Stage::Executing, SessionEvent::ExecStarted) => Stage::Started,
        (Stage::Connecting, SessionEvent::ConnectFailed(_)) => Stage::Failed,
        (Stage::Authenticating, SessionEvent::AuthRejected) => Stage::Failed,
        (Stage::Authenticating, SessionEvent::PasswordChangeRequested(_)) => Stage::Failed,
        (Stage::Authenticating, SessionEvent::AuthError(_)) => Stage::Failed,
        (Stage::Opening, SessionEvent::SessionFailed(_)) => Stage::Failed,
        (Stage::CheckingPath, SessionEvent::PathChecked(false)) => Stage::Failed,
        (Stage::CheckingPath, SessionEvent::PathCheckFailed(_)) => Stage::Failed,
        (Stage::Executing, SessionEvent::ExecFailed(_)) => Stage::Failed,
        _ => s,
    }
}

/// Whether `e` belongs to stage `s`.
pub open spec fn expected(s: Stage, e: SessionEvent) -> bool {
    match (s, e) {
        (Stage::Connecting, SessionEvent::Connected) => true,
        (Stage::Connecting, SessionEvent::ConnectFailed(_)) => true,
        (Stage::Authenticating, SessionEvent::AuthAccepted) => true,
        (Stage::Authenticating, SessionEvent::AuthRejected) => true,
        (Stage::Authenticating, SessionEvent::PasswordChangeRequested(_)) => true,
        (Stage::Authenticating, SessionEvent::AuthError(_)) => true,
        (Stage::Opening, SessionEvent::SessionOpened) => true,
        (Stage::Opening, SessionEvent::SessionFailed(_)) => true,
        (Stage::CheckingPath, SessionEvent::PathChecked(_)) => true,
        (Stage::CheckingPath, SessionEvent::PathCheckFailed(_)) => true,
        (Stage::Executing, SessionEvent::ExecStarted) => true,
        (Stage::Executing, SessionEvent::ExecFailed(_)) => true,
        _ => false,
    }
}

impl SessionSetup {
    pub closed spec fn stage(&self) -> Stage {
        self.stage
    }

    /// A transport connection is open.
    pub closed spec fn transport_open(&self) -> bool {
        self.transport_open
    }

    /// A session channel is open.
    pub closed spec fn channel_open(&self) -> bool {
        self.channel_open
    }

    pub closed spec fn target_user(&self) -> Seq<char> {
        self.target.user@
    }

    pub closed spec fn target_password(&self) -> Seq<char> {
        self.target.password@
    }

    pub closed spec fn target_path(&self) -> Seq<char> {
        self.target.path@
    }

    pub closed spec fn target_command(&self) -> Seq<char> {
        self.target.command@
    }

    pub closed spec fn tokens_view(&self) -> TokensView {
        self.tokens@
    }

    /// A channel is open only over an open transport, and only once the
    /// credentials were accepted and the session opened.
    pub closed spec fn wf(&self) -> bool {
        &&& self.tokens@.wf()
        &&& self.channel_open ==> self.transport_open
        &&& self.channel_open <==> (self.stage == Stage::CheckingPath || self.stage
            == Stage::Executing || self.stage == Stage::Started)
        &&& self.transport_open <==> (self.stage != Stage::Connecting && self.stage
            != Stage::Failed)
    }

    /// Takes what came of the last step: the next one.
    pub fn on_event(&mut self, event: SessionEvent) -> (a: SessionAction)
        requires
            old(self).wf(),
        ensures
            final(self).wf(),
            final(self).stage() == next_stage(old(self).stage(), event),
            final(self).target_user() == old(self).target_user(),
            final(self).target_password() == old(self).target_password(),
            final(self).target_path() == old(self).target_path(),
            final(self).target_command() == old(self).target_command(),
            final(self).tokens_view() == old(self).tokens_view(),
            !expected(old(self).stage(), event) ==> a is Ignore,
            match (old(self).stage(), event) {
                (Stage::Connecting, SessionEvent::Connected) => (a matches SessionAction::Authenticate {
                    user,
                    password,
                } && user@ == old(self).target_user() && password@ == old(self).target_password()),
                (Stage::Connecting, SessionEvent::ConnectFailed(m)) => (a matches SessionAction::Abort {
                    error: SpawnError::ConnectFailed(m2),
                    close_transport: false,
                } && m2@ == m@),
                (Stage::Authenticating, SessionEvent::AuthAccepted) => a is OpenSession,
                (Stage::Authenticating, SessionEvent::AuthRejected) => (a matches SessionAction::Abort {
                    error: SpawnError::AuthenticationFailed,
                    close_transport: true,
                }),
                (Stage::Authenticating, SessionEvent::PasswordChangeRequested(m)) => (a matches SessionAction::Abort {
                    error: SpawnError::PasswordChangeRequested(m2),
                    close_transport: true,
                } && m2@ == m@),
                (Stage::Authenticating, SessionEvent::AuthError(m)) => (a matches SessionAction::Abort {
                    error: SpawnError::ConnectFailed(m2),
                    close_transport: true,
                } && m2@ == m@),
                (Stage::Opening, SessionEvent::SessionOpened) => (a matches SessionAction::CheckPath(p)
                    && p@ == old(self).target_path()),
                (Stage::Opening, SessionEvent::SessionFailed(m)) => (a matches SessionAction::Abort {
                    error: SpawnError::SessionFailed(m2),
                    close_transport: true,
                } && m2@ == m@),
                (Stage::CheckingPath, SessionEvent::PathChecked(true)) => (a matches SessionAction::Execute(c)
                    && c@ == shell_line(old(self).target_path(), old(self).target_command())),
                (Stage::CheckingPath, SessionEvent::PathChecked(false)) => (a matches SessionAction::Abort {
                    error: SpawnError::PathNotFound(p),
                    close_transport: true,
                } && p@ == old(self).target_path()),
                (Stage::CheckingPath, SessionEvent::PathCheckFailed(m)) => (a matches SessionAction::Abort {
                    error: SpawnError::SessionFailed(m2),
                    close_transport: true,
                } && m2@ == m@),
                (Stage::Executing, SessionEvent::ExecStarted) => (a matches SessionAction::Relay(r)
                    && r@ == fresh_relay(old(self).tokens_view()) && r.wf()),
                (Stage::Executing, SessionEvent::ExecFailed(m)) => (a matches SessionAction::Abort {
                    error: SpawnError::LaunchFailed(m2),
                    close_transport: true,
                } && m2@ == m@),
                _ => a is Ignore,
            },
    {
        match (self.stage, event) {
            (Stage::Connecting, SessionEvent::Connected) => {
                self.stage = Stage::Authenticating;
                self.transport_open = true;
                SessionAction::Authenticate {
                    user: self.target.user.clone(),
                    password: self.target.password.clone(),
                }
            },
            (Stage::Connecting, SessionEvent::ConnectFailed(m)) => {
                self.stage = Stage::Failed;
                SessionAction::Abort { error: SpawnError::ConnectFailed(m), close_transport: false }
            },
            (Stage::Authenticating, SessionEvent::AuthAccepted) => {
                self.stage = Stage::Opening;
                SessionAction::OpenSession
            },
            (Stage::Authenticating, SessionEvent::AuthRejected) => {
                self.stage = Stage::Failed;
                self.transport_open = false;
                SessionAction::Abort { error: SpawnError::AuthenticationFailed, close_transport: true }
            },
            (Stage::Authenticating, SessionEvent::PasswordChangeRequested(m)) => {
                self.stage = Stage::Failed;
                self.transport_open = false;
                SessionAction::Abort {
                    error: SpawnError::PasswordChangeRequested(m),
                    close_transport: true,
                }
            },
            (Stage::Authenticating, SessionEvent::AuthError(m)) => {
                self.stage = Stage::Failed;
                self.transport_open = false;
                SessionAction::Abort { error: SpawnError::ConnectFailed(m), close_transport: true }
            },
            (Stage::Opening, SessionEvent::SessionOpened) => {
                self.stage = Stage::CheckingPath;
                self.channel_open = true;
                SessionAction::CheckPath(self.target.path.clone())
            },
            (Stage::Opening, SessionEvent::SessionFailed(m)) => {
                self.stage = Stage::Failed;
                self.transport_open = false;
                SessionAction::Abort { error: SpawnError::SessionFailed(m), close_transport: true }
            },
            (Stage::CheckingPath, SessionEvent::PathChecked(exists)) => {
                if exists {
                    self.stage = Stage::Executing;
                    SessionAction::Execute(
                        make_shell_line(self.target.path.as_str(), self.target.command.as_str()),
                    )
                } else {
                    self.stage = Stage::Failed;
                    self.transport_open = false;
                    self.channel_open = false;
                    SessionAction::Abort {
                        error: SpawnError::PathNotFound(self.target.path.clone()),
                        close_transport: true,
                    }
                }
            },
            (Stage::CheckingPath, SessionEvent::PathCheckFailed(m)) => {
                self.stage = Stage::Failed;
                self.transport_open = false;
                self.channel_open = false;
                SessionAction::Abort { error: SpawnError::SessionFailed(m), close_transport: true }
            },
            (Stage::Executing, SessionEvent::ExecStarted) => {
                self.stage = Stage::Started;
                SessionAction::Relay(Relay::new(self.tokens.duplicate()))
            },
            (Stage::Executing, SessionEvent::ExecFailed(m)) => {
                self.stage = Stage::Failed;
                self.transport_open = false;
                self.channel_open = false;
                SessionAction::Abort { error: SpawnError::LaunchFailed(m), close_transport: true }
            },
            _ => SessionAction::Ignore,
        }
    }
}

/// Once a session setup has failed, no transport connection or channel is
/// left open, and it takes no further step whatever comes.
pub proof fn lemma_failed_setup_closed(s: SessionSetup, later: SessionEvent)
    requires
        s.wf(),
        s.stage() == Stage::Failed,
    ensures
        !s.transport_open(),
        !s.channel_open(),
        !expected(s.stage(), later),
        next_stage(s.stage(), later) == Stage::Failed,
{
}

/// A rejected credential ends the setup: no channel was opened before it,
/// the setup that follows has failed with no transport connection or channel
/// open, and no later event opens one.
pub proof fn lemma_auth_rejected(before: SessionSetup, after: SessionSetup, later: SessionEvent)
    requires
        before.wf(),
        before.stage() == Stage::Authenticating,
        after.wf(),
        after.stage() == next_stage(before.stage(), SessionEvent::AuthRejected),
    ensures
        !before.channel_open(),
        after.stage() == Stage::Failed,
        !after.transport_open(),
        !after.channel_open(),
        !expected(after.stage(), later),
        next_stage(after.stage(), later) == Stage::Failed,
{
}

/// The name a driver kind goes by.
pub open spec fn driver_name(k: DriverKind) -> Seq<char> {
    match k {
        DriverKind::Local => "LocalDriver"@,
        DriverKind::Remote => "SSHDriver"@,
    }
}

/// A driver's rendering: its name, then its identity fields, its model
/// (execution) parameters and its connection parameters.
pub open spec fn driver_text(
    name: Seq<char>,
    identity: Seq<char>,
    connection: Seq<char>,
    execution: Seq<char>,
) -> Seq<char> {
    name + " {\n    static_fields: "@ + identity + ",\n    model_params: "@ + execution
        + ",\n    connection_params: "@ + connection + ",\n}"@
}

/// The rendering of group `i` of a descriptor, `{}` where it is absent.
pub open spec fn group_text(a: &MEALArgs, i: int) -> Seq<char> {
    if 0 <= i < a.meal_config@.len() {
        a.meal_config@[i].text()
    } else {
        "{}"@
    }
}

/// Renders group `i` of a descriptor.
fn render_group(a: &MEALArgs, i: usize) -> (r: String)
    ensures
        r@ == group_text(a, i as int),
{
    if i < a.meal_config.len() {
        a.meal_config[i].render()
    } else {
        String::from_str("{}")
    }
}

/// Renders a driver of kind `k` built from `a`.
fn render_driver(k: DriverKind, a: &MEALArgs) -> (r: String)
    ensures
        r@ == driver_text(driver_name(k), group_text(a, 0), group_text(a, 1), group_text(a, 2)),
        starts_with(r@, driver_name(k)),
{
    let name = match k {
        DriverKind::Local => "LocalDriver",
        DriverKind::Remote => "SSHDriver",
    };
    let g0 = render_group(a, 0);
    let g1 = render_group(a, 1);
    let g2 = render_group(a, 2);
    let s = cat(name, " {\n    static_fields: ");
    let s = cat(s.as_str(), g0.as_str());
    let s = cat(s.as_str(), ",\n    model_params: ");
    let s = cat(s.as_str(), g2.as_str());
    let s = cat(s.as_str(), ",\n    connection_params: ");
    let s = cat(s.as_str(), g1.as_str());
    let s = cat(s.as_str(), ",\n}");
    proof {
        let rest = " {\n    static_fields: "@ + g0@ + ",\n    model_params: "@ + g2@
            + ",\n    connection_params: "@ + g1@ + ",\n}"@;
        assert(s@ =~= name@ + rest);
        assert(s@.take(name@.len() as int) =~= name@);
    }
    s
}

/// The driver a MEAL runs its backend with.
pub enum Driver {
    Local(LocalDriver),
    Remote(SSHDriver),
}

/// Model execution abstraction layer: one backend, behind whichever driver
/// its connection type selects.
pub struct MEAL {
    driver: Driver,
}

impl MEAL {
    pub closed spec fn kind(&self) -> DriverKind {
        match self.driver {
            Driver::Local(_) => DriverKind::Local,
            Driver::Remote(_) => DriverKind::Remote,
        }
    }

    pub closed spec fn descriptor(&self) -> Seq<Map<Seq<char>, Seq<char>>> {
        match self.driver {
            Driver::Local(d) => d.descriptor(),
            Driver::Remote(d) => d.descriptor(),
        }
    }

    pub closed spec fn wf(&self) -> bool {
        match self.driver {
            Driver::Local(d) => d.wf(),
            Driver::Remote(d) => d.wf(),
        }
    }

    /// The driver's rendering: its name, then its three maps.
    pub closed spec fn rendering(&self) -> Seq<char> {
        let a = match self.driver {
            Driver::Local(d) => d.args,
            Driver::Remote(d) => d.args,
        };
        driver_text(driver_name(self.kind()), group_text(&a, 0), group_text(&a, 1), group_text(&a, 2))
    }

    /// Builds a MEAL whose driver `driver_type` selects. Fails on an unknown
    /// type, and when a protocol token is missing or empty; nothing is
    /// started either way.
    pub fn create(driver_type: &str, meal_args: MEALArgs) -> (r: Result<MEAL, ConfigError>)
        ensures
            ({
                let cfg = groups(&meal_args);
                &&& r is Ok <==> kind_of_tag(driver_type@) is Some && tokens_filled(cfg)
                &&& r matches Ok(m) ==> m.wf() && Some(m.kind()) == kind_of_tag(driver_type@)
                    && m.descriptor() == cfg
                &&& kind_of_tag(driver_type@) is None ==> (r matches Err(
                    ConfigError::UnknownDriver(t),
                ) && t@ == driver_type@)
                &&& kind_of_tag(driver_type@) matches Some(k) ==> (!tokens_filled(cfg) ==> (
                r matches Err(e) && token_error(cfg, k, e)))
            }),
    {
        let driver = match driver_kind(driver_type)? {
            DriverKind::Local => Driver::Local(LocalDriver::new(meal_args)?),
            DriverKind::Remote => Driver::Remote(SSHDriver::new(meal_args)?),
        };
        Ok(MEAL { driver })
    }

    /// Builds a MEAL whose driver the descriptor's own connection type
    /// (`connType` among the identity fields) selects.
    pub fn from_descriptor(meal_args: MEALArgs) -> (r: Result<MEAL, ConfigError>)
        ensures
            ({
                let cfg = groups(&meal_args);
                let tag = lookup(cfg, Category::Identity, "connType"@);
                &&& r is Ok <==> (tag matches Some(t) && kind_of_tag(t) is Some) && tokens_filled(
                    cfg,
                )
                &&& r matches Ok(m) ==> m.wf() && Some(m.kind()) == kind_of_tag(tag->0)
                    && m.descriptor() == cfg
                &&& tag is None ==> (r matches Err(e) && (e == ConfigError::MissingGroup(
                    Category::Identity,
                ) || e matches ConfigError::MissingField { category: Category::Identity, .. }))
                &&& tag matches Some(t) ==> (kind_of_tag(t) is None ==> (r matches Err(
                    ConfigError::UnknownDriver(u),
                ) && u@ == t))
                &&& tag matches Some(t) ==> (kind_of_tag(t) matches Some(k) ==> (!tokens_filled(
                    cfg,
                ) ==> (r matches Err(e) && token_error(cfg, k, e))))
            }),
    {
        let tag = meal_args.field(Category::Identity, "connType")?.clone();
        MEAL::create(tag.as_str(), meal_args)
    }

    /// The driver, rendered: `LocalDriver` or `SSHDriver`, then its identity
    /// fields, model parameters and connection parameters.
    pub fn driver_type(&self) -> (r: String)
        ensures
            r@ == self.rendering(),
            starts_with(r@, driver_name(self.kind())),
    {
        match &self.driver {
            Driver::Local(d) => render_driver(DriverKind::Local, &d.args),
            Driver::Remote(d) => render_driver(DriverKind::Remote, &d.args),
        }
    }

    /// The value of `key` in group `category` of the descriptor.
    pub fn field(&self, category: Category, key: &str) -> (r: Result<&String, ConfigError>)
        ensures
            match r {
                Ok(v) => lookup(self.descriptor(), category, key@) == Some(v@),
                Err(e) => lookup(self.descriptor(), category, key@) is None && missing_error(
                    self.descriptor(),
                    None,
                    category,
                    key@,
                    e,
                ),
            },
    {
        match &self.driver {
            Driver::Local(d) => d.args.field(category, key),
            Driver::Remote(d) => d.args.field(category, key),
        }
    }

    /// The driver itself, for the task that starts the backend.
    pub fn driver(&self) -> (d: &Driver)
        ensures
            (d is Local) == (self.kind() == DriverKind::Local),
            d matches Driver::Local(l) ==> (self.wf() ==> l.wf() && l.descriptor()
                == self.descriptor()),
            d matches Driver::Remote(x) ==> (self.wf() ==> x.wf() && x.descriptor()
                == self.descriptor()),
    {
        &self.driver
    }
}

} // verus!
