use termux_server::channels::CommandPoll;
use termux_server::pipeline::{run_producer, ProducerRead, ProducerScript};
use termux_server::sensor::{
    termination_plan, ProcEvent, ProducerMachine, SensorCommand, SensorInitState, SensorWorker,
    TermStep,
};

fn block(pid: u32) -> Vec<ProcEvent> {
    vec![
        ProcEvent::Spawned(pid),
        ProcEvent::SentInterrupt(pid),
        ProcEvent::SentTerminate(pid),
        ProcEvent::SentKill(pid),
        ProcEvent::Reaped(pid),
    ]
}

#[test]
fn termination_plan_escalates_in_order() {
    // Interrupt first, each courteous signal followed by a grace period,
    // kill only third, and a synchronous reap last.
    let plan = termination_plan();
    assert_eq!(
        plan,
        vec![
            TermStep::SignalInterrupt,
            TermStep::WaitGrace,
            TermStep::SignalTerminate,
            TermStep::WaitGrace,
            TermStep::ForceKill,
            TermStep::ReapChild,
        ]
    );
}

#[test]
fn every_owned_subprocess_is_reaped_before_the_next_start() {
    // Start, Start (replacing), Stop, Start, Exit: three subprocesses, each
    // fully escalated and reaped before the next spawn or the loop's end.
    let script = ProducerScript {
        cmds: vec![
            CommandPoll::Received(SensorCommand::Start),
            CommandPoll::Received(SensorCommand::Start),
            CommandPoll::Received(SensorCommand::Stop),
            CommandPoll::Received(SensorCommand::Start),
            CommandPoll::Received(SensorCommand::Exit),
        ],
        spawn_pids: vec![Some(1), Some(2), Some(3)],
        reads: vec![
            ProducerRead::Chunk(b"a".to_vec()),
            ProducerRead::Chunk(b"b".to_vec()),
            ProducerRead::Chunk(b"c".to_vec()),
        ],
        send_ok: vec![true, true, true],
        fuel: 16,
    };
    let trace = run_producer(&script);
    let mut expected = block(1);
    expected.extend(block(2));
    expected.extend(block(3));
    assert_eq!(trace.events, expected);
    assert_eq!(trace.forwarded, vec![b"a".to_vec(), b"b".to_vec(), b"c".to_vec()]);
    assert!(trace.machine.owned.is_none());
}

#[test]
fn exit_mid_read_still_runs_full_termination() {
    // Exit arrives while a subprocess is live and chunks are still being
    // read: the loop ends after the command check and the subprocess goes
    // through the full three-tier termination before the run completes.
    let script = ProducerScript {
        cmds: vec![
            CommandPoll::Received(SensorCommand::Start),
            CommandPoll::Empty,
            CommandPoll::Received(SensorCommand::Exit),
        ],
        spawn_pids: vec![Some(7)],
        reads: vec![
            ProducerRead::Chunk(b"A".to_vec()),
            ProducerRead::Chunk(b"B".to_vec()),
            ProducerRead::Chunk(b"C".to_vec()),
        ],
        send_ok: vec![true, true, true],
        fuel: 16,
    };
    let trace = run_producer(&script);
    assert_eq!(trace.events, block(7));
    assert_eq!(trace.forwarded, vec![b"A".to_vec(), b"B".to_vec()]);
    assert!(trace.machine.owned.is_none());
    assert!(trace.machine.done);
}

#[test]
fn spawn_failure_leaves_actor_alive_without_subprocess() {
    let script = ProducerScript {
        cmds: vec![
            CommandPoll::Received(SensorCommand::Start),
            CommandPoll::Empty,
            CommandPoll::Received(SensorCommand::Exit),
        ],
        spawn_pids: vec![None],
        reads: vec![ProducerRead::Chunk(b"x".to_vec())],
        send_ok: vec![true],
        fuel: 16,
    };
    let trace = run_producer(&script);
    assert_eq!(trace.events, Vec::<ProcEvent>::new());
    assert_eq!(trace.forwarded, Vec::<Vec<u8>>::new());
    assert!(trace.machine.owned.is_none());
}

#[test]
fn end_of_stream_ends_loop_and_reaps() {
    let script = ProducerScript {
        cmds: vec![CommandPoll::Received(SensorCommand::Start)],
        spawn_pids: vec![Some(9)],
        reads: vec![ProducerRead::Chunk(b"last".to_vec()), ProducerRead::Eof],
        send_ok: vec![true],
        fuel: 16,
    };
    let trace = run_producer(&script);
    assert_eq!(trace.events, block(9));
    assert_eq!(trace.forwarded, vec![b"last".to_vec()]);
    assert!(trace.machine.done);
}

#[test]
fn read_error_ends_loop_and_reaps() {
    let script = ProducerScript {
        cmds: vec![CommandPoll::Received(SensorCommand::Start)],
        spawn_pids: vec![Some(4)],
        reads: vec![ProducerRead::Failed],
        send_ok: vec![],
        fuel: 16,
    };
    let trace = run_producer(&script);
    assert_eq!(trace.events, block(4));
    assert_eq!(trace.forwarded, Vec::<Vec<u8>>::new());
    assert!(trace.machine.done);
}

#[test]
fn send_failure_ends_loop_and_drops_that_chunk() {
    let script = ProducerScript {
        cmds: vec![CommandPoll::Received(SensorCommand::Start)],
        spawn_pids: vec![Some(5)],
        reads: vec![ProducerRead::Chunk(b"p".to_vec()), ProducerRead::Chunk(b"q".to_vec())],
        send_ok: vec![true, false],
        fuel: 16,
    };
    let trace = run_producer(&script);
    assert_eq!(trace.forwarded, vec![b"p".to_vec()]);
    assert_eq!(trace.events, block(5));
    assert!(trace.machine.done);
}

#[test]
fn command_channel_loss_ends_loop() {
    let script = ProducerScript {
        cmds: vec![CommandPoll::Closed],
        spawn_pids: vec![],
        reads: vec![],
        send_ok: vec![],
        fuel: 16,
    };
    let trace = run_producer(&script);
    assert!(trace.machine.done);
    assert_eq!(trace.events, Vec::<ProcEvent>::new());
}

#[test]
fn stop_tears_down_without_ending_the_actor() {
    let script = ProducerScript {
        cmds: vec![
            CommandPoll::Received(SensorCommand::Start),
            CommandPoll::Received(SensorCommand::Stop),
            CommandPoll::Empty,
            CommandPoll::Received(SensorCommand::Exit),
        ],
        spawn_pids: vec![Some(6)],
        reads: vec![ProducerRead::Chunk(b"one".to_vec())],
        send_ok: vec![true],
        fuel: 16,
    };
    let trace = run_producer(&script);
    assert_eq!(trace.events, block(6));
    assert_eq!(trace.forwarded, vec![b"one".to_vec()]);
    // after Stop the actor kept polling until Exit
    assert!(trace.machine.done);
    assert!(trace.machine.owned.is_none());
}

#[test]
fn machine_forbids_double_ownership_via_replace() {
    let mut m = ProducerMachine::new();
    m.on_spawn_result(Some(11));
    assert_eq!(m.owned, Some(11));
    m.on_child_terminated();
    assert_eq!(m.owned, None);
    m.on_spawn_result(Some(12));
    assert_eq!(m.owned, Some(12));
}

#[test]
fn producer_build_wires_controller_to_worker() {
    let (data_tx, _data_rx) = std::sync::mpsc::channel::<Vec<u8>>();
    let init = SensorInitState {
        name: String::from("Linear Acceleration"),
        delay_ms: 200,
        output_tx: data_tx,
    };
    let (worker, controller) = SensorWorker::build(init);
    assert_eq!(worker.sensor_config.name, "Linear Acceleration");
    assert_eq!(worker.sensor_config.delay_ms, 200);
    assert!(worker.machine.owned.is_none());
    controller.cmd_tx.send(SensorCommand::Start).unwrap();
    assert_eq!(worker.cmd_rx.try_recv().unwrap(), SensorCommand::Start);
}
