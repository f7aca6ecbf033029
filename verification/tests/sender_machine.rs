use termux_server::channels::CommandPoll;
use termux_server::pipeline::{run_sender, SenderScript};
use termux_server::tcp_sender::{SenderMachine, SenderState, TcpMess, TcpSenderInitState, TcpSenderWorker};

#[test]
fn exit_command_reaches_exit_from_every_state() {
    let starts = [
        SenderState::Idle,
        SenderState::WaitForConnection,
        SenderState::Connected,
        SenderState::Disconnected,
        SenderState::Exit,
    ];
    for s in starts {
        let mut m = SenderMachine { state: s };
        m.on_poll(CommandPoll::Received(TcpMess::Exit));
        assert_eq!(m.state, SenderState::Exit);
    }
}

#[test]
fn command_channel_loss_reaches_exit_from_every_state() {
    let starts = [
        SenderState::Idle,
        SenderState::WaitForConnection,
        SenderState::Connected,
        SenderState::Disconnected,
    ];
    for s in starts {
        let mut m = SenderMachine { state: s };
        m.on_poll(CommandPoll::Closed);
        assert_eq!(m.state, SenderState::Exit);
    }
}

#[test]
fn only_try_connect_leaves_idle() {
    let mut m = SenderMachine::new();
    assert_eq!(m.state, SenderState::Idle);
    m.on_poll(CommandPoll::Empty);
    assert_eq!(m.state, SenderState::Idle);
    m.on_poll(CommandPoll::Received(TcpMess::Suspend));
    assert_eq!(m.state, SenderState::Idle);
    m.on_poll(CommandPoll::Received(TcpMess::TryConnect));
    assert_eq!(m.state, SenderState::WaitForConnection);
}

#[test]
fn write_failure_reaches_disconnected_never_idle_or_exit() {
    let mut m = SenderMachine { state: SenderState::Connected };
    m.on_write_result(false);
    assert_eq!(m.state, SenderState::Disconnected);
}

#[test]
fn successful_write_stays_connected() {
    let mut m = SenderMachine { state: SenderState::Connected };
    m.on_write_result(true);
    assert_eq!(m.state, SenderState::Connected);
}

#[test]
fn suspend_discards_connection_and_idles() {
    let mut m = SenderMachine { state: SenderState::Connected };
    m.on_poll(CommandPoll::Received(TcpMess::Suspend));
    assert_eq!(m.state, SenderState::Idle);
}

#[test]
fn connect_failure_keeps_retrying_state() {
    let mut m = SenderMachine { state: SenderState::WaitForConnection };
    m.on_connect_result(false);
    assert_eq!(m.state, SenderState::WaitForConnection);
    m.on_connect_result(true);
    assert_eq!(m.state, SenderState::Connected);
}

#[test]
fn two_failed_attempts_then_connect_writes_all_chunks_in_order() {
    // The subprocess has emitted A, B and C; the connection is unavailable
    // for the first two attempts, then succeeds.  Nothing is dropped: the
    // chunks queued while disconnected are written in order once connected.
    let script = SenderScript {
        cmds: vec![CommandPoll::Received(TcpMess::TryConnect)],
        connects: vec![false, false, true],
        chunks: vec![b"A".to_vec(), b"B".to_vec(), b"C".to_vec()],
        writes: vec![true, true, true],
        fuel: 16,
    };
    let trace = run_sender(SenderState::Idle, &script);
    assert_eq!(trace.attempts, 3);
    assert_eq!(trace.states[0], SenderState::WaitForConnection);
    assert_eq!(trace.states[1], SenderState::WaitForConnection);
    assert_eq!(trace.states[2], SenderState::Connected);
    assert_eq!(trace.written, vec![b"A".to_vec(), b"B".to_vec(), b"C".to_vec()]);
    assert_eq!(trace.dropped, Vec::<Vec<u8>>::new());
    assert_eq!(trace.consumed, 3);
    assert_eq!(trace.machine.state, SenderState::Exit);
}

#[test]
fn write_failure_drops_only_the_failed_chunk() {
    // Connected sender sees the write of B fail: B is dropped, the state
    // passes through Disconnected, reconnection succeeds, and only C is
    // subsequently written.
    let script = SenderScript {
        cmds: vec![],
        connects: vec![true],
        chunks: vec![b"A".to_vec(), b"B".to_vec(), b"C".to_vec()],
        writes: vec![true, false, true],
        fuel: 16,
    };
    let trace = run_sender(SenderState::Connected, &script);
    assert_eq!(trace.written, vec![b"A".to_vec(), b"C".to_vec()]);
    assert_eq!(trace.dropped, vec![b"B".to_vec()]);
    assert_eq!(trace.states[1], SenderState::Disconnected);
    assert_eq!(trace.states[2], SenderState::Connected);
    assert_eq!(trace.attempts, 1);
    assert_eq!(trace.machine.state, SenderState::Exit);
}

#[test]
fn idle_sender_consumes_nothing() {
    let script = SenderScript {
        cmds: vec![],
        connects: vec![true],
        chunks: vec![b"A".to_vec()],
        writes: vec![true],
        fuel: 8,
    };
    let trace = run_sender(SenderState::Idle, &script);
    assert_eq!(trace.consumed, 0);
    assert_eq!(trace.attempts, 0);
    assert_eq!(trace.machine.state, SenderState::Idle);
}

#[test]
fn drained_channel_reports_closed_and_exits() {
    let script = SenderScript {
        cmds: vec![CommandPoll::Received(TcpMess::TryConnect)],
        connects: vec![true],
        chunks: vec![],
        writes: vec![],
        fuel: 8,
    };
    let trace = run_sender(SenderState::Idle, &script);
    assert_eq!(trace.machine.state, SenderState::Exit);
    assert_eq!(trace.consumed, 0);
}

#[test]
fn sender_build_wires_controller_to_worker() {
    let (_data_tx, data_rx) = std::sync::mpsc::channel::<Vec<u8>>();
    let init = TcpSenderInitState { input_rx: data_rx, target_addr: String::from("127.0.0.1:8080") };
    let (worker, controller) = TcpSenderWorker::build(init);
    assert_eq!(worker.machine.state, SenderState::Idle);
    assert_eq!(worker.tcp.target_addr, "127.0.0.1:8080");
    controller.cmd_tx.send(TcpMess::TryConnect).unwrap();
    assert_eq!(worker.cmd_rx.try_recv().unwrap(), TcpMess::TryConnect);
    assert!(worker.cmd_rx.try_recv().is_err());
}
