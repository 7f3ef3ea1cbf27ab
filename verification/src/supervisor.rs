//! Lifecycle of the single worker process.
//!
//! The supervisor owns every decision — whether a requested launch may
//! proceed, and what an observed exit means — while the caller performs the
//! OS work: it spawns the process described by a [`LaunchCommand`], records
//! the spawn's outcome, and probes the child's liveness without blocking,
//! handing the observed status back through [`Supervisor::poll`].

use vstd::prelude::*;

verus! {

/// The lifecycle of the one worker the supervisor may own.
#[derive(Clone, Copy, PartialEq, Eq, Structural, Debug)]
pub enum SupervisorState {
    /// No child process exists; a launch may be requested.
    Idle,
    /// A spawn call is in progress; its outcome has not been recorded yet.
    Launching,
    /// A child process is live; its exit has not been observed yet.
    Running,
}

/// How a child exited: the OS exit code, or none when a signal terminated
/// it.
#[derive(Clone, Copy, PartialEq, Eq, Debug)]
pub struct ExitStatus {
    /// The exit code; absent when the child was terminated by a signal.
    pub code: Option<i32>,
}

/// An exit counts as a success exactly when the child exited with code zero.
pub open spec fn exit_success(status: ExitStatus) -> bool {
    status.code == Some(0i32)
}

impl ExitStatus {
    /// An exit with the given code.
    pub fn from_code(code: i32) -> (status: ExitStatus)
        ensures
            status.code == Some(code),
    {
        ExitStatus { code: Some(code) }
    }

    /// An exit forced by a signal, carrying no exit code.
    pub fn from_signal() -> (status: ExitStatus)
        ensures
            status.code is None,
    {
        ExitStatus { code: None }
    }

    /// Whether this exit counts as a success.
    pub fn is_success(&self) -> (r: bool)
        ensures
            r == exit_success(*self),
    {
        match self.code {
            Some(c) => c == 0,
            None => false,
        }
    }
}

/// What the supervisor reports when it observes a child exit: the
/// classification and the raw status for diagnostics. A failure — non-zero
/// code or signal — is noteworthy; a success is merely informational.
#[derive(Clone, Copy, PartialEq, Eq, Debug)]
pub struct ExitReport {
    /// True exactly when the child exited with code zero.
    pub success: bool,
    /// The raw exit status as observed.
    pub status: ExitStatus,
}

/// A launch may proceed only from `Idle` — at most one child is ever live —
/// and only once a working directory is present.
pub open spec fn spec_launch_allowed(state: SupervisorState, has_working_dir: bool) -> bool {
    state is Idle && has_working_dir
}

/// The poll transition: in `Running`, an observed status frees the child
/// slot and produces a report classifying the exit; in every other case
/// nothing changes and nothing is reported.
pub open spec fn spec_poll(state: SupervisorState, observed: Option<ExitStatus>) -> (
    SupervisorState,
    Option<ExitReport>,
) {
    if state is Running && observed is Some {
        (
            SupervisorState::Idle,
            Some(
                (ExitReport {
                    success: exit_success(observed.unwrap()),
                    status: observed.unwrap(),
                }),
            ),
        )
    } else {
        (state, None)
    }
}

/// Owns the lifecycle state of the single worker process.
pub struct Supervisor {
    state: SupervisorState,
}

impl View for Supervisor {
    type V = SupervisorState;

    closed spec fn view(&self) -> SupervisorState {
        self.state
    }
}

impl Supervisor {
    /// A supervisor with no child.
    pub fn new() -> (s: Supervisor)
        ensures
            s@ is Idle,
    {
        Supervisor { state: SupervisorState::Idle }
    }

    /// The current lifecycle state.
    pub fn state(&self) -> (state: SupervisorState)
        ensures
            state == self@,
    {
        self.state
    }

    /// Decide whether a requested launch may proceed. When it may, the
    /// supervisor moves to `Launching` and the caller must perform the spawn
    /// and record its outcome; otherwise the request is a no-op.
    pub fn begin_launch(&mut self, has_working_dir: bool) -> (go: bool)
        ensures
            go == spec_launch_allowed(old(self)@, has_working_dir),
            final(self)@ == (if go {
                SupervisorState::Launching
            } else {
                old(self)@
            }),
    {
        if has_working_dir && matches!(self.state, SupervisorState::Idle) {
            self.state = SupervisorState::Launching;
            true
        } else {
            false
        }
    }

    /// Record that the spawn call succeeded: the child is now live.
    pub fn launch_succeeded(&mut self)
        requires
            old(self)@ is Launching,
        ensures
            final(self)@ is Running,
    {
        self.state = SupervisorState::Running;
    }

    /// Record that the spawn call failed: the slot returns to `Idle` so a
    /// later launch may be attempted. The failure is reported by the caller,
    /// never retried here.
    pub fn launch_failed(&mut self)
        requires
            old(self)@ is Launching,
        ensures
            final(self)@ is Idle,
    {
        self.state = SupervisorState::Idle;
    }

    /// Consume the result of a non-blocking liveness probe: `observed` is
    /// what a try-wait on the live child returned this tick. An observed
    /// exit frees the slot and is classified; while the child lives, or when
    /// none exists, nothing changes.
    pub fn poll(&mut self, observed: Option<ExitStatus>) -> (report: Option<ExitReport>)
        ensures
            (final(self)@, report) == spec_poll(old(self)@, observed),
    {
        if matches!(self.state, SupervisorState::Running) {
            match observed {
                Some(status) => {
                    self.state = SupervisorState::Idle;
                    let success = status.is_success();
                    Some(ExitReport { success, status })
                },
                None => None,
            }
        } else {
            None
        }
    }
}

/// Everything an OS-level spawn of the worker needs, as plain values.
pub struct LaunchCommand {
    /// The program to run.
    pub program: String,
    /// The arguments, in order.
    pub args: Vec<String>,
    /// Environment entries (key, value) set for the child.
    pub env: Vec<(String, String)>,
    /// The working directory the child starts in.
    pub working_dir: String,
}

/// The identity of the shared-memory channel: an opaque token that the
/// channel endpoint and the spawned child must share to rendezvous. Created
/// once at startup and immutable thereafter.
pub struct ChannelIdentity {
    /// The service-name token.
    pub token: String,
}

impl View for ChannelIdentity {
    type V = Seq<char>;

    open spec fn view(&self) -> Seq<char> {
        self.token@
    }
}

impl ChannelIdentity {
    /// Wrap a service-name token.
    pub fn new(token: String) -> (id: ChannelIdentity)
        ensures
            id@ == token@,
    {
        ChannelIdentity { token }
    }
}

/// `cmd` is exactly the spawn request for the worker: `cargo run` in the
/// given working directory, with the channel identity exported under the
/// rendezvous key and verbose diagnostics enabled.
pub open spec fn is_launch_command_for(cmd: LaunchCommand, identity: Seq<char>, dir: Seq<char>) -> bool {
    &&& cmd.program@ == "cargo"@
    &&& cmd.args@.len() == 1
    &&& cmd.args@[0]@ == "run"@
    &&& cmd.env@.len() == 2
    &&& cmd.env@[0].0@ == "BEVY_WORLD_SYNC_SERVICE"@
    &&& cmd.env@[0].1@ == identity
    &&& cmd.env@[1].0@ == "RUST_BACKTRACE"@
    &&& cmd.env@[1].1@ == "1"@
    &&& cmd.working_dir@ == dir
}

/// Build the spawn request for the worker process.
pub fn build_launch_command(identity: &ChannelIdentity, working_dir: &String) -> (cmd:
    LaunchCommand)
    ensures
        is_launch_command_for(cmd, identity@, working_dir@),
{
    let mut args: Vec<String> = Vec::new();
    args.push(String::from_str("run"));
    let mut env: Vec<(String, String)> = Vec::new();
    env.push((String::from_str("BEVY_WORLD_SYNC_SERVICE"), identity.token.clone()));
    env.push((String::from_str("RUST_BACKTRACE"), String::from_str("1")));
    LaunchCommand {
        program: String::from_str("cargo"),
        args,
        env,
        working_dir: working_dir.clone(),
    }
}

/// Law: a child that exits with code zero is reported as a success exactly
/// once — the poll that observes it frees the slot, every further poll
/// before a new launch reports nothing — and a launch request may then
/// proceed again.
pub proof fn lemma_exit_transition(status: ExitStatus)
    requires
        exit_success(status),
    ensures
        spec_poll(SupervisorState::Running, Some(status)).1 == Some(
            (ExitReport { success: true, status }),
        ),
        spec_poll(SupervisorState::Running, Some(status)).0 == SupervisorState::Idle,
        forall|later: Option<ExitStatus>| #![auto]
            spec_poll(SupervisorState::Idle, later).1 is None,
        spec_launch_allowed(SupervisorState::Idle, true),
{
}

} // verus!
