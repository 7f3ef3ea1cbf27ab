//! The per-tick control logic.
//!
//! One tick, driven by an outer scheduler, (1) consumes the result of the
//! non-blocking liveness probe on the child, (2) reassembles the chunks
//! drained from the channel this tick, and (3) hands everything produced —
//! exit report, completed messages, the last message for display, and a
//! no-activity notice — back to the caller's sinks. Nothing here blocks.

use vstd::prelude::*;

use crate::reassembly::{
    buffer_views, chunk_models, completed_messages, remainder, Chunk, Reassembler,
};
use crate::supervisor::{
    build_launch_command, is_launch_command_for, spec_launch_allowed, spec_poll, ChannelIdentity,
    ExitReport, ExitStatus, LaunchCommand, Supervisor, SupervisorState,
};

verus! {

/// An event from the upstream trigger layer.
pub enum Trigger {
    /// A launch of the worker was requested.
    LaunchRequested,
    /// The working directory was replaced with the given path.
    WorkingDirectoryChanged(String),
}

/// The mathematical content of a trigger.
pub ghost enum TriggerModel {
    /// A launch of the worker was requested.
    LaunchRequested,
    /// The working directory was replaced with the given path.
    WorkingDirectoryChanged(Seq<char>),
}

impl View for Trigger {
    type V = TriggerModel;

    open spec fn view(&self) -> TriggerModel {
        match self {
            Trigger::LaunchRequested => TriggerModel::LaunchRequested,
            Trigger::WorkingDirectoryChanged(p) => TriggerModel::WorkingDirectoryChanged(p@),
        }
    }
}

/// All cross-tick state of the control loop.
pub struct ControlState {
    /// Lifecycle of the single worker process.
    pub supervisor: Supervisor,
    /// Carries the in-progress message across ticks.
    pub reassembler: Reassembler,
    /// The caller-supplied working directory, once one was provided.
    pub working_dir: Option<String>,
    /// The channel identity shared with the spawned worker.
    pub identity: ChannelIdentity,
}

/// The mathematical content of the control state.
pub ghost struct ControlModel {
    /// Lifecycle state of the worker.
    pub supervisor: SupervisorState,
    /// The in-progress message buffer.
    pub in_progress: Seq<u8>,
    /// The working directory, once provided.
    pub working_dir: Option<Seq<char>>,
    /// The channel identity token.
    pub identity: Seq<char>,
}

impl View for ControlState {
    type V = ControlModel;

    open spec fn view(&self) -> ControlModel {
        ControlModel {
            supervisor: self.supervisor@,
            in_progress: self.reassembler@,
            working_dir: match self.working_dir {
                Some(p) => Some(p@),
                None => None,
            },
            identity: self.identity@,
        }
    }
}

/// The trigger transition: a directory change replaces the stored path; a
/// launch request moves the supervisor to `Launching` exactly when a launch
/// is allowed, and is otherwise a no-op.
pub open spec fn spec_trigger(m: ControlModel, t: TriggerModel) -> ControlModel {
    match t {
        TriggerModel::WorkingDirectoryChanged(p) => (ControlModel {
            working_dir: Some(p),
            ..m
        }),
        TriggerModel::LaunchRequested => {
            if spec_launch_allowed(m.supervisor, m.working_dir is Some) {
                ControlModel { supervisor: SupervisorState::Launching, ..m }
            } else {
                m
            }
        },
    }
}

/// Everything one control-loop tick produces for the caller's sinks.
pub struct TickOutcome {
    /// The report produced when the child's exit was observed this tick.
    pub exit_report: Option<ExitReport>,
    /// The messages completed this tick, in arrival order.
    pub completed: Vec<Vec<u8>>,
    /// The last message completed this tick, for point-in-time display;
    /// absent when no message was completed.
    pub display: Option<Vec<u8>>,
    /// True when the tick drained no chunks at all — a low-severity notice,
    /// not an error.
    pub no_activity: bool,
}

impl ControlState {
    /// Start with no child, an empty in-progress buffer, no working
    /// directory, and the given channel identity.
    pub fn new(identity: ChannelIdentity) -> (s: ControlState)
        ensures
            s@.supervisor is Idle,
            s@.in_progress == Seq::<u8>::empty(),
            s@.working_dir is None,
            s@.identity == identity@,
    {
        ControlState {
            supervisor: Supervisor::new(),
            reassembler: Reassembler::new(),
            working_dir: None,
            identity,
        }
    }

    /// Consume one trigger. A launch request that may proceed returns the
    /// spawn request the caller must perform — recording its outcome on the
    /// supervisor afterwards; every other trigger returns nothing.
    pub fn handle_trigger(&mut self, trigger: Trigger) -> (cmd: Option<LaunchCommand>)
        ensures
            final(self)@ == spec_trigger(old(self)@, trigger@),
            cmd is Some <==> (trigger@ is LaunchRequested && spec_launch_allowed(
                old(self)@.supervisor,
                old(self)@.working_dir is Some,
            )),
            cmd is Some ==> is_launch_command_for(
                cmd.unwrap(),
                old(self)@.identity,
                old(self)@.working_dir.unwrap(),
            ),
    {
        match trigger {
            Trigger::WorkingDirectoryChanged(p) => {
                self.working_dir = Some(p);
                None
            },
            Trigger::LaunchRequested => {
                let has_dir = self.working_dir.is_some();
                let go = self.supervisor.begin_launch(has_dir);
                if go {
                    let cmd = build_launch_command(
                        &self.identity,
                        self.working_dir.as_ref().unwrap(),
                    );
                    Some(cmd)
                } else {
                    None
                }
            },
        }
    }

    /// One control-loop tick: first consume the liveness probe's result,
    /// then reassemble the chunks drained from the channel this tick. Never
    /// blocks; a tick with no chunks reports no activity.
    pub fn tick(&mut self, observed: Option<ExitStatus>, chunks: &Vec<Chunk>) -> (o: TickOutcome)
        ensures
            (final(self)@.supervisor, o.exit_report) == spec_poll(old(self)@.supervisor, observed),
            buffer_views(o.completed@) == completed_messages(
                old(self)@.in_progress,
                chunk_models(chunks@),
            ),
            final(self)@.in_progress == remainder(old(self)@.in_progress, chunk_models(chunks@)),
            o.display is Some <==> o.completed@.len() > 0,
            o.display is Some ==> o.display.unwrap()@ == buffer_views(o.completed@).last(),
            o.no_activity == (chunks@.len() == 0),
            final(self)@.working_dir == old(self)@.working_dir,
            final(self)@.identity == old(self)@.identity,
    {
        let exit_report = self.supervisor.poll(observed);
        let completed = self.reassembler.tick(chunks);
        let no_activity = chunks.len() == 0;
        let display = if completed.len() > 0 {
            Some(copy_bytes(&completed[completed.len() - 1]))
        } else {
            None
        };
        TickOutcome { exit_report, completed, display, no_activity }
    }
}

/// Copy a byte buffer.
fn copy_bytes(src: &Vec<u8>) -> (r: Vec<u8>)
    ensures
        r@ == src@,
{
    let mut r: Vec<u8> = Vec::new();
    let n = src.len();
    proof {
        assert(src@.take(0) =~= Seq::<u8>::empty());
    }
    let mut i: usize = 0;
    while i < n
        invariant
            i <= n,
            n == src.len(),
            r@ == src@.take(i as int),
        decreases n - i,
    {
        r.push(src[i]);
        i = i + 1;
        proof {
            assert(src@.take(i as int) =~= src@.take(i - 1).push(src@[i - 1]));
        }
    }
    proof {
        assert(src@.take(n as int) =~= src@);
    }
    r
}

/// Law: at most one child is ever live. While the supervisor is `Launching`
/// or `Running`, a further launch request is rejected and changes nothing.
pub proof fn lemma_at_most_one_live_child(m: ControlModel)
    requires
        m.supervisor is Launching || m.supervisor is Running,
    ensures
        !spec_launch_allowed(m.supervisor, m.working_dir is Some),
        spec_trigger(m, TriggerModel::LaunchRequested) == m,
{
}

} // verus!
