//! The sender actor: a finite-state connection manager that drains the data
//! channel onto an outbound network stream, reconnecting with a fixed
//! backoff on failure.
//!
//! The state machine lives in [`SenderMachine`]; the embedding program opens
//! the real connection, performs the writes and sleeps, and reports each
//! outcome back to the machine.

use vstd::prelude::*;
use crate::channels::{mpsc_channel, CommandPoll};

verus! {

/// Commands the orchestrator can send to the sender actor.
#[derive(Clone, Copy, PartialEq, Eq, Structural, Debug)]
pub enum TcpMess {
    TryConnect,
    Suspend,
    Exit,
}

/// The connection states of the sender actor.  `Idle` is the initial state;
/// `Exit` is terminal.
#[derive(Clone, Copy, PartialEq, Eq, Structural, Debug)]
pub enum SenderState {
    Idle,
    WaitForConnection,
    Connected,
    Disconnected,
    Exit,
}

/// What the run loop must do next, as decided from the current state.
#[derive(Clone, Copy, PartialEq, Eq, Structural, Debug)]
pub enum SenderAction {
    /// Terminal state: leave the run loop, dropping any live connection.
    ExitLoop,
    /// Idle: no I/O and no channel consumption; sleep one idle interval,
    /// then poll commands again.
    SleepIdle,
    /// Attempt one connection establishment; report through
    /// [`SenderMachine::on_connect_result`].
    AttemptConnect,
    /// Block on the data channel for one chunk; report through
    /// [`SenderMachine::on_recv_closed`] or, after writing the chunk,
    /// [`SenderMachine::on_write_result`].
    RecvChunk,
}

/// The machine after one command poll.  Command handling takes precedence
/// over state-local behaviour: `Exit` ends the loop from any state,
/// `TryConnect` forces connection establishment, `Suspend` forces idleness
/// (both discarding any live connection), and the loss of the command
/// channel ends the loop.
pub open spec fn sender_poll_step(s: SenderState, p: CommandPoll<TcpMess>) -> SenderState {
    match p {
        CommandPoll::Received(TcpMess::TryConnect) => SenderState::WaitForConnection,
        CommandPoll::Received(TcpMess::Suspend) => SenderState::Idle,
        CommandPoll::Received(TcpMess::Exit) => SenderState::Exit,
        CommandPoll::Empty => s,
        CommandPoll::Closed => SenderState::Exit,
    }
}

/// The machine after one connection attempt.
pub open spec fn sender_connect_step(s: SenderState, ok: bool) -> SenderState {
    if ok {
        SenderState::Connected
    } else {
        s
    }
}

/// The machine after one write of a chunk to the stream: a failed write
/// discards the stream and the chunk and enters the reconnect cycle — never
/// idleness, never the terminal state.
pub open spec fn sender_write_step(s: SenderState, ok: bool) -> SenderState {
    if ok {
        s
    } else {
        SenderState::Disconnected
    }
}

/// The state-local behaviour of each state.
pub open spec fn sender_action_of(s: SenderState) -> SenderAction {
    match s {
        SenderState::Exit => SenderAction::ExitLoop,
        SenderState::Idle => SenderAction::SleepIdle,
        SenderState::WaitForConnection => SenderAction::AttemptConnect,
        SenderState::Disconnected => SenderAction::AttemptConnect,
        SenderState::Connected => SenderAction::RecvChunk,
    }
}

/// The decision state of the sender actor.  The embedding program holds a
/// live stream exactly while the state is `Connected`.
pub struct SenderMachine {
    pub state: SenderState,
}

impl SenderMachine {
    /// A fresh sender actor is idle.
    pub fn new() -> (m: SenderMachine)
        ensures
            m.state is Idle,
    {
        SenderMachine { state: SenderState::Idle }
    }

    /// One non-blocking command poll at the top of a run-loop iteration.
    pub fn on_poll(&mut self, p: CommandPoll<TcpMess>)
        ensures
            final(self).state == sender_poll_step(old(self).state, p),
    {
        match p {
            CommandPoll::Received(TcpMess::TryConnect) => {
                self.state = SenderState::WaitForConnection;
            },
            CommandPoll::Received(TcpMess::Suspend) => {
                self.state = SenderState::Idle;
            },
            CommandPoll::Received(TcpMess::Exit) => {
                self.state = SenderState::Exit;
            },
            CommandPoll::Empty => {},
            CommandPoll::Closed => {
                self.state = SenderState::Exit;
            },
        }
    }

    /// The state-local step this iteration asks of the run loop.
    pub fn next_action(&self) -> (a: SenderAction)
        ensures
            a == sender_action_of(self.state),
    {
        match self.state {
            SenderState::Exit => SenderAction::ExitLoop,
            SenderState::Idle => SenderAction::SleepIdle,
            SenderState::WaitForConnection => SenderAction::AttemptConnect,
            SenderState::Disconnected => SenderAction::AttemptConnect,
            SenderState::Connected => SenderAction::RecvChunk,
        }
    }

    /// The embedding program reports one connection attempt: success enters
    /// `Connected`; failure leaves the state as it was, to retry after one
    /// backoff interval.
    pub fn on_connect_result(&mut self, ok: bool)
        requires
            old(self).state is WaitForConnection || old(self).state is Disconnected,
        ensures
            final(self).state == sender_connect_step(old(self).state, ok),
    {
        if ok {
            self.state = SenderState::Connected;
        }
    }

    /// The data channel reported that its producing peer is gone for good:
    /// there is nothing left to send, so the run loop ends.
    pub fn on_recv_closed(&mut self)
        requires
            old(self).state is Connected,
        ensures
            final(self).state is Exit,
    {
        self.state = SenderState::Exit;
    }

    /// The embedding program reports the write of one received chunk: a
    /// failure drops the stream and the chunk (it is not retried) and enters
    /// the reconnect cycle.
    pub fn on_write_result(&mut self, ok: bool)
        requires
            old(self).state is Connected,
        ensures
            final(self).state == sender_write_step(old(self).state, ok),
    {
        if !ok {
            self.state = SenderState::Disconnected;
        }
    }
}

/// The sender actor's state transitions form a closed graph: from any state
/// the `Exit` command (or the loss of the command channel) reaches `Exit`;
/// no command other than `TryConnect` and `Exit` leaves `Idle`; and from
/// `Connected` a write failure always reaches `Disconnected` — never `Idle`,
/// never `Exit`.
pub proof fn lemma_sender_transition_graph(s: SenderState, p: CommandPoll<TcpMess>)
    ensures
        sender_poll_step(s, CommandPoll::Received(TcpMess::Exit)) is Exit,
        sender_poll_step(s, CommandPoll::Closed) is Exit,
        s is Idle && !(sender_poll_step(s, p) is Idle) ==> p == CommandPoll::Received(
            TcpMess::TryConnect,
        ) || p == CommandPoll::Received(TcpMess::Exit) || p is Closed,
        s is Idle && p == CommandPoll::Received(TcpMess::TryConnect) ==> sender_poll_step(
            s,
            p,
        ) is WaitForConnection,
        sender_write_step(SenderState::Connected, false) is Disconnected,
        !(sender_write_step(SenderState::Connected, false) is Idle),
        !(sender_write_step(SenderState::Connected, false) is Exit),
{
}

/// Where the sender actor connects to: the `host:port` target.
pub struct TcpConfig {
    pub target_addr: String,
}

/// Everything the sender actor needs at construction: the receiving half of
/// the data channel and the target network address.
pub struct TcpSenderInitState {
    pub input_rx: std::sync::mpsc::Receiver<Vec<u8>>,
    pub target_addr: String,
}

/// The orchestrator's handle to a running sender actor: a pure capability to
/// enqueue commands, owning none of the actor's resources.
pub struct TcpSenderController {
    pub cmd_tx: std::sync::mpsc::Sender<TcpMess>,
}

/// The sender actor paired with its decision state: the machine, the target
/// address, and the channel endpoints of its run loop.
pub struct TcpSenderWorker {
    pub machine: SenderMachine,
    pub tcp: TcpConfig,
    pub cmd_rx: std::sync::mpsc::Receiver<TcpMess>,
    pub rx: std::sync::mpsc::Receiver<Vec<u8>>,
}

impl TcpSenderWorker {
    /// Constructs the actor and the controller the orchestrator keeps.  The
    /// actor starts idle, holding no connection.
    pub fn build(state: TcpSenderInitState) -> (r: (TcpSenderWorker, TcpSenderController))
        ensures
            r.0.machine.state is Idle,
            r.0.tcp.target_addr@ == state.target_addr@,
            r.0.rx == state.input_rx,
    {
        let (cmd_tx, cmd_rx) = mpsc_channel();
        let worker = TcpSenderWorker {
            machine: SenderMachine::new(),
            tcp: TcpConfig { target_addr: state.target_addr },
            cmd_rx,
            rx: state.input_rx,
        };
        let controller = TcpSenderController { cmd_tx };
        (worker, controller)
    }
}

} // verus!
