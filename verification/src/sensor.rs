//! The producer actor: owns at most one data-producing subprocess, forwards
//! its output as byte chunks, and tears the subprocess down through an
//! escalating signal sequence on every exit path.
//!
//! The decisions of the actor's run loop live in [`ProducerMachine`]: what a
//! polled command means, when the loop ends, and when the owned subprocess
//! must be terminated.  The embedding program spawns the real subprocess,
//! reads its output, delivers the signals, and reports each outcome back to
//! the machine.

use vstd::prelude::*;
use crate::channels::{mpsc_channel, CommandPoll};

verus! {

/// Commands the orchestrator can send to the producer actor.
#[derive(Clone, Copy, PartialEq, Eq, Structural, Debug)]
pub enum SensorCommand {
    Start,
    Stop,
    Exit,
}

/// How the external data source is launched: which named sensor to select
/// and the emission interval, in milliseconds, between samples.
pub struct SensorConfig {
    pub name: String,
    pub delay_ms: u64,
}

/// Everything the producer actor needs at construction: the source selector,
/// the emission interval, and the sending half of the data channel.
pub struct SensorInitState {
    pub name: String,
    pub delay_ms: u64,
    pub output_tx: std::sync::mpsc::Sender<Vec<u8>>,
}

/// The orchestrator's handle to a running producer actor: a pure capability
/// to enqueue commands, owning none of the actor's resources.
pub struct SensorController {
    pub cmd_tx: std::sync::mpsc::Sender<SensorCommand>,
}

/// What the run loop must do next, as decided from one command poll.
#[derive(Clone, Copy, PartialEq, Eq, Structural, Debug)]
pub enum ProducerAction {
    /// No subprocess is owned: launch one, then report through
    /// [`ProducerMachine::on_spawn_result`].
    LaunchChild,
    /// A subprocess is owned and a new one was requested: run the full
    /// termination sequence on the old one, report through
    /// [`ProducerMachine::on_child_terminated`], then launch and report the
    /// replacement.
    ReplaceChild,
    /// Run the full termination sequence on the owned subprocess and report
    /// through [`ProducerMachine::on_child_terminated`].
    TerminateChild,
    /// The run loop is over; any owned subprocess must still be terminated.
    ExitLoop,
    /// Nothing to do and no subprocess to read from: sleep one idle interval.
    IdleWait,
    /// Go on to the read phase of this iteration.
    Proceed,
}

/// The decision state of the producer actor: whether a subprocess (identified
/// by the id of its process group) is currently owned, and whether the run
/// loop has ended.
pub struct ProducerMachine {
    pub owned: Option<u32>,
    pub done: bool,
}

/// The machine after one command poll: `Exit`, or the loss of the command
/// channel, ends the run loop; every other poll leaves the machine unchanged
/// until the embedding program reports what it did.
pub open spec fn poll_step(m: ProducerMachine, p: CommandPoll<SensorCommand>) -> ProducerMachine {
    match p {
        CommandPoll::Received(SensorCommand::Exit) => ProducerMachine { done: true, ..m },
        CommandPoll::Closed => ProducerMachine { done: true, ..m },
        _ => m,
    }
}

/// The action one command poll asks of the run loop.
pub open spec fn poll_action(m: ProducerMachine, p: CommandPoll<SensorCommand>) -> ProducerAction {
    match p {
        CommandPoll::Received(SensorCommand::Start) => if m.owned is Some {
            ProducerAction::ReplaceChild
        } else {
            ProducerAction::LaunchChild
        },
        CommandPoll::Received(SensorCommand::Stop) => if m.owned is Some {
            ProducerAction::TerminateChild
        } else {
            ProducerAction::Proceed
        },
        CommandPoll::Received(SensorCommand::Exit) => ProducerAction::ExitLoop,
        CommandPoll::Closed => ProducerAction::ExitLoop,
        CommandPoll::Empty => if m.owned is Some {
            ProducerAction::Proceed
        } else {
            ProducerAction::IdleWait
        },
    }
}

impl ProducerMachine {
    /// A fresh producer actor owns no subprocess and is running.
    pub fn new() -> (m: ProducerMachine)
        ensures
            m.owned is None,
            !m.done,
    {
        ProducerMachine { owned: None, done: false }
    }

    /// One non-blocking command poll at the top of a run-loop iteration.
    pub fn on_poll(&mut self, p: CommandPoll<SensorCommand>) -> (a: ProducerAction)
        ensures
            *final(self) == poll_step(*old(self), p),
            a == poll_action(*old(self), p),
    {
        match p {
            CommandPoll::Received(SensorCommand::Start) => {
                if self.owned.is_some() {
                    ProducerAction::ReplaceChild
                } else {
                    ProducerAction::LaunchChild
                }
            },
            CommandPoll::Received(SensorCommand::Stop) => {
                if self.owned.is_some() {
                    ProducerAction::TerminateChild
                } else {
                    ProducerAction::Proceed
                }
            },
            CommandPoll::Received(SensorCommand::Exit) => {
                self.done = true;
                ProducerAction::ExitLoop
            },
            CommandPoll::Closed => {
                self.done = true;
                ProducerAction::ExitLoop
            },
            CommandPoll::Empty => {
                if self.owned.is_some() {
                    ProducerAction::Proceed
                } else {
                    ProducerAction::IdleWait
                }
            },
        }
    }

    /// The embedding program reports a launch attempt: the process-group id
    /// of the new subprocess, or `None` when spawning failed.  A failed
    /// launch is fatal only to this attempt: the actor stays alive, owning
    /// nothing, and awaits a new command.  Launching over an owned subprocess
    /// is forbidden: the old one must be terminated and reported first.
    pub fn on_spawn_result(&mut self, pid: Option<u32>)
        requires
            old(self).owned is None,
        ensures
            final(self).owned == pid,
            final(self).done == old(self).done,
    {
        self.owned = pid;
    }

    /// The embedding program reports that the owned subprocess has gone
    /// through the full termination sequence and is reaped.
    pub fn on_child_terminated(&mut self)
        requires
            old(self).owned is Some,
        ensures
            final(self).owned is None,
            final(self).done == old(self).done,
    {
        self.owned = None;
    }

    /// A read of the subprocess's output ended the stream: end of stream or
    /// a read error both end the run loop, with no retry.
    pub fn on_read_end(&mut self)
        requires
            old(self).owned is Some,
        ensures
            final(self).done,
            final(self).owned == old(self).owned,
    {
        self.done = true;
    }

    /// The embedding program reports a forward of one chunk onto the data
    /// channel: a failed send means the consuming peer is gone, which ends
    /// the run loop.
    pub fn on_forward_result(&mut self, ok: bool)
        ensures
            final(self).owned == old(self).owned,
            final(self).done == (old(self).done || !ok),
    {
        if !ok {
            self.done = true;
        }
    }
}

/// Milliseconds granted to the subprocess after each of the first two
/// termination signals, so it can release exclusive resources and exit.
pub const GRACE_PERIOD_MS: u64 = 2000;

/// Milliseconds the run loop sleeps when it owns no subprocess and received
/// no command.
pub const IDLE_WAIT_MS: u64 = 3000;

/// How many bytes one blocking read of subprocess output may return at most.
pub const READ_BUFFER_LEN: usize = 4096;

/// One step of the mandatory termination sequence for an owned subprocess.
/// The signals go to the whole process group, so they reach the subprocess
/// and any of its own descendants.
#[derive(Clone, Copy, PartialEq, Eq, Structural, Debug)]
pub enum TermStep {
    /// Deliver the interrupt signal to the process group: the courteous
    /// request, needed by producers that must release exclusive hardware
    /// before they can exit at all.
    SignalInterrupt,
    /// Wait one grace period.
    WaitGrace,
    /// Deliver the terminate signal to the process group.
    SignalTerminate,
    /// Forcibly kill the process if it is still alive.
    ForceKill,
    /// Synchronously wait on the process so no residual entry remains in the
    /// operating system's process table.
    ReapChild,
}

/// The termination sequence: interrupt, grace, terminate, grace, kill, reap.
pub open spec fn termination_plan_spec() -> Seq<TermStep> {
    seq![
        TermStep::SignalInterrupt,
        TermStep::WaitGrace,
        TermStep::SignalTerminate,
        TermStep::WaitGrace,
        TermStep::ForceKill,
        TermStep::ReapChild,
    ]
}

/// The ordered steps the embedding program must execute, one after the
/// other, to terminate an owned subprocess on any exit path.
pub fn termination_plan() -> (plan: Vec<TermStep>)
    ensures
        plan@ == termination_plan_spec(),
{
    let mut plan: Vec<TermStep> = Vec::new();
    plan.push(TermStep::SignalInterrupt);
    plan.push(TermStep::WaitGrace);
    plan.push(TermStep::SignalTerminate);
    plan.push(TermStep::WaitGrace);
    plan.push(TermStep::ForceKill);
    plan.push(TermStep::ReapChild);
    proof {
        assert(plan@ =~= termination_plan_spec());
    }
    plan
}

/// Terminating an owned subprocess always attempts interrupt before
/// terminate before kill, in that order, whatever the subprocess does in
/// response: the plan holds each signal exactly once, each of the first two
/// followed by a grace period, and ends by reaping the process.
pub proof fn lemma_escalation_plan_ordered()
    ensures
        termination_plan_spec().len() == 6,
        termination_plan_spec()[0] == TermStep::SignalInterrupt,
        termination_plan_spec()[1] == TermStep::WaitGrace,
        termination_plan_spec()[2] == TermStep::SignalTerminate,
        termination_plan_spec()[3] == TermStep::WaitGrace,
        termination_plan_spec()[4] == TermStep::ForceKill,
        termination_plan_spec()[5] == TermStep::ReapChild,
        forall|i: int|
            0 <= i < 6 && termination_plan_spec()[i] == TermStep::SignalInterrupt ==> i == 0,
        forall|i: int|
            0 <= i < 6 && termination_plan_spec()[i] == TermStep::SignalTerminate ==> i == 2,
        forall|i: int| 0 <= i < 6 && termination_plan_spec()[i] == TermStep::ForceKill ==> i == 4,
        forall|i: int| 0 <= i < 6 && termination_plan_spec()[i] == TermStep::ReapChild ==> i == 5,
{
}

/// One observable step in the life of an owned subprocess, identified by the
/// id of its process group.
#[derive(Clone, Copy, PartialEq, Eq, Structural, Debug)]
pub enum ProcEvent {
    Spawned(u32),
    SentInterrupt(u32),
    SentTerminate(u32),
    SentKill(u32),
    Reaped(u32),
}

/// The subprocess an event belongs to.
pub open spec fn pid_of(e: ProcEvent) -> u32 {
    match e {
        ProcEvent::Spawned(p) => p,
        ProcEvent::SentInterrupt(p) => p,
        ProcEvent::SentTerminate(p) => p,
        ProcEvent::SentKill(p) => p,
        ProcEvent::Reaped(p) => p,
    }
}

/// The four observable termination events, in escalation order.
pub open spec fn term_events(pid: u32) -> Seq<ProcEvent> {
    seq![
        ProcEvent::SentInterrupt(pid),
        ProcEvent::SentTerminate(pid),
        ProcEvent::SentKill(pid),
        ProcEvent::Reaped(pid),
    ]
}

/// One complete subprocess lifetime: spawned, then fully terminated.
pub open spec fn spawn_block(pid: u32) -> Seq<ProcEvent> {
    seq![
        ProcEvent::Spawned(pid),
        ProcEvent::SentInterrupt(pid),
        ProcEvent::SentTerminate(pid),
        ProcEvent::SentKill(pid),
        ProcEvent::Reaped(pid),
    ]
}

/// A complete lifetime is the spawn event followed by the termination events.
pub proof fn lemma_spawn_block_parts(pid: u32)
    ensures
        spawn_block(pid) == seq![ProcEvent::Spawned(pid)] + term_events(pid),
{
    assert(spawn_block(pid) =~= seq![ProcEvent::Spawned(pid)] + term_events(pid));
}

/// A supervision log is closed when it is a concatenation of complete
/// subprocess lifetimes: every spawn is followed by the full termination
/// sequence of that subprocess before anything else is logged.
pub open spec fn closed_log(log: Seq<ProcEvent>) -> bool
    decreases log.len(),
{
    log.len() == 0 || {
        &&& log.len() >= 5
        &&& (exists|pid: u32| log.take(5) == spawn_block(pid))
        &&& closed_log(log.skip(5))
    }
}

/// Appends the four observable termination events of the subprocess, in
/// escalation order, to the supervision log.
pub fn emit_termination(log: &mut Vec<ProcEvent>, pid: u32)
    ensures
        final(log)@ == old(log)@ + term_events(pid),
{
    log.push(ProcEvent::SentInterrupt(pid));
    log.push(ProcEvent::SentTerminate(pid));
    log.push(ProcEvent::SentKill(pid));
    log.push(ProcEvent::Reaped(pid));
    proof {
        assert(log@ =~= old(log)@ + term_events(pid));
    }
}

/// A closed log stays closed when one more complete lifetime is appended.
pub proof fn lemma_closed_log_append_block(log: Seq<ProcEvent>, pid: u32)
    requires
        closed_log(log),
    ensures
        closed_log(log + spawn_block(pid)),
    decreases log.len(),
{
    let whole = log + spawn_block(pid);
    if log.len() == 0 {
        assert(whole =~= spawn_block(pid));
        assert(whole.take(5) =~= spawn_block(pid));
        assert(whole.skip(5) =~= Seq::<ProcEvent>::empty());
        assert(closed_log(whole.skip(5)));
    } else {
        let pid0 = choose|q: u32| log.take(5) == spawn_block(q);
        assert(whole.take(5) =~= log.take(5));
        assert(whole.skip(5) =~= log.skip(5) + spawn_block(pid));
        lemma_closed_log_append_block(log.skip(5), pid);
        assert(whole.take(5) == spawn_block(pid0));
    }
}

/// In a closed supervision log every position belongs to one complete
/// lifetime block; this returns the index of that block's spawn event and
/// gives the block's five events.
pub proof fn lemma_closed_log_block(log: Seq<ProcEvent>, i: int) -> (b: int)
    requires
        closed_log(log),
        0 <= i < log.len(),
    ensures
        0 <= b <= i < b + 5,
        b + 5 <= log.len(),
        log[b] == ProcEvent::Spawned(pid_of(log[b])),
        log[b + 1] == ProcEvent::SentInterrupt(pid_of(log[b])),
        log[b + 2] == ProcEvent::SentTerminate(pid_of(log[b])),
        log[b + 3] == ProcEvent::SentKill(pid_of(log[b])),
        log[b + 4] == ProcEvent::Reaped(pid_of(log[b])),
    decreases log.len(),
{
    let pid0 = choose|q: u32| log.take(5) == spawn_block(q);
    if i < 5 {
        assert(log.take(5)[0] == log[0]);
        assert(log.take(5)[1] == log[1]);
        assert(log.take(5)[2] == log[2]);
        assert(log.take(5)[3] == log[3]);
        assert(log.take(5)[4] == log[4]);
        0
    } else {
        let rest = log.skip(5);
        let bb = lemma_closed_log_block(rest, i - 5);
        assert(rest[bb] == log[bb + 5]);
        assert(rest[bb + 1] == log[bb + 6]);
        assert(rest[bb + 2] == log[bb + 7]);
        assert(rest[bb + 3] == log[bb + 8]);
        assert(rest[bb + 4] == log[bb + 9]);
        bb + 5
    }
}

/// At most one subprocess is owned at any instant, and every owned
/// subprocess is fully reaped in time: in a closed supervision log, the reap
/// of each spawned subprocess stands before any later spawn, and every
/// spawned subprocess is reaped by the end of the log.
pub proof fn lemma_single_owner_fully_reaped(log: Seq<ProcEvent>)
    requires
        closed_log(log),
    ensures
        forall|i: int|
            0 <= i < log.len() && (#[trigger] log[i]) is Spawned ==> exists|k: int|
                i < k < log.len() && (#[trigger] log[k]) == ProcEvent::Reaped(pid_of(log[i])),
        forall|i: int, j: int|
            0 <= i < j < log.len() && (#[trigger] log[i]) is Spawned && (#[trigger] log[j])
                is Spawned ==> exists|k: int|
                i < k < j && (#[trigger] log[k]) == ProcEvent::Reaped(pid_of(log[i])),
{
    assert forall|i: int|
        0 <= i < log.len() && (#[trigger] log[i]) is Spawned implies exists|k: int|
        i < k < log.len() && (#[trigger] log[k]) == ProcEvent::Reaped(pid_of(log[i])) by {
        let b = lemma_closed_log_block(log, i);
        assert(i == b);
        assert(log[b + 4] == ProcEvent::Reaped(pid_of(log[i])));
    }
    assert forall|i: int, j: int|
        0 <= i < j < log.len() && (#[trigger] log[i]) is Spawned && (#[trigger] log[j])
        is Spawned implies exists|k: int|
        i < k < j && (#[trigger] log[k]) == ProcEvent::Reaped(pid_of(log[i])) by {
        let b = lemma_closed_log_block(log, i);
        assert(i == b);
        assert(!(log[b + 1] is Spawned) && !(log[b + 2] is Spawned) && !(log[b + 3] is Spawned)
            && !(log[b + 4] is Spawned));
        assert(j >= b + 5);
        assert(log[b + 4] == ProcEvent::Reaped(pid_of(log[i])));
    }
}

/// The escalation is observable and ordered in every closed supervision log:
/// each interrupt follows its spawn at once, each terminate its interrupt,
/// each kill its terminate, and each reap its kill — no tier is skipped.
pub proof fn lemma_escalation_observed(log: Seq<ProcEvent>)
    requires
        closed_log(log),
    ensures
        forall|i: int|
            0 <= i < log.len() && (#[trigger] log[i]) is SentInterrupt ==> 1 <= i && log[i - 1]
                == ProcEvent::Spawned(pid_of(log[i])),
        forall|i: int|
            0 <= i < log.len() && (#[trigger] log[i]) is SentTerminate ==> 1 <= i && log[i - 1]
                == ProcEvent::SentInterrupt(pid_of(log[i])),
        forall|i: int|
            0 <= i < log.len() && (#[trigger] log[i]) is SentKill ==> 1 <= i && log[i - 1]
                == ProcEvent::SentTerminate(pid_of(log[i])),
        forall|i: int|
            0 <= i < log.len() && (#[trigger] log[i]) is Reaped ==> 1 <= i && log[i - 1]
                == ProcEvent::SentKill(pid_of(log[i])),
{
    assert forall|i: int|
        0 <= i < log.len() && (#[trigger] log[i]) is SentInterrupt implies 1 <= i && log[i - 1]
        == ProcEvent::Spawned(pid_of(log[i])) by {
        let b = lemma_closed_log_block(log, i);
        assert(i == b + 1);
    }
    assert forall|i: int|
        0 <= i < log.len() && (#[trigger] log[i]) is SentTerminate implies 1 <= i && log[i - 1]
        == ProcEvent::SentInterrupt(pid_of(log[i])) by {
        let b = lemma_closed_log_block(log, i);
        assert(i == b + 2);
    }
    assert forall|i: int|
        0 <= i < log.len() && (#[trigger] log[i]) is SentKill implies 1 <= i && log[i - 1]
        == ProcEvent::SentTerminate(pid_of(log[i])) by {
        let b = lemma_closed_log_block(log, i);
        assert(i == b + 3);
    }
    assert forall|i: int|
        0 <= i < log.len() && (#[trigger] log[i]) is Reaped implies 1 <= i && log[i - 1]
        == ProcEvent::SentKill(pid_of(log[i])) by {
        let b = lemma_closed_log_block(log, i);
        assert(i == b + 4);
    }
}

/// The producer actor paired with its decision state: the machine, the
/// launch configuration, and the channel endpoints of its run loop.
pub struct SensorWorker {
    pub machine: ProducerMachine,
    pub sensor_config: SensorConfig,
    pub cmd_rx: std::sync::mpsc::Receiver<SensorCommand>,
    pub output_tx: std::sync::mpsc::Sender<Vec<u8>>,
}

impl SensorWorker {
    /// Constructs the actor and the controller the orchestrator keeps.
    pub fn build(state: SensorInitState) -> (r: (SensorWorker, SensorController))
        ensures
            r.0.machine.owned is None,
            !r.0.machine.done,
            r.0.sensor_config.name@ == state.name@,
            r.0.sensor_config.delay_ms == state.delay_ms,
            r.0.output_tx == state.output_tx,
    {
        let (cmd_tx, cmd_rx) = mpsc_channel();
        let worker = SensorWorker {
            machine: ProducerMachine::new(),
            sensor_config: SensorConfig { name: state.name, delay_ms: state.delay_ms },
            cmd_rx,
            output_tx: state.output_tx,
        };
        let controller = SensorController { cmd_tx };
        (worker, controller)
    }
}

} // verus!
