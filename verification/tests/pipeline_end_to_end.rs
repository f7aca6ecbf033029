use termux_server::channels::{CommandPoll, SystemChannels};
use termux_server::display::{vec_to_string, DisplayInitState, DisplayWorker};
use termux_server::pipeline::{run_display, run_pipeline, ProducerRead, ProducerScript};
use termux_server::sensor::SensorCommand;
use termux_server::tcp_sender::TcpMess;

#[test]
fn data_channel_roundtrip() {
    let (producers, consumers) = SystemChannels::build();
    producers.sensor_tx.send(b"sample".to_vec()).unwrap();
    producers.sensor_tx.send(b"more".to_vec()).unwrap();
    assert_eq!(consumers.sensor_rx.recv().unwrap(), b"sample".to_vec());
    assert_eq!(consumers.sensor_rx.recv().unwrap(), b"more".to_vec());
    drop(producers);
    assert!(consumers.sensor_rx.recv().is_err());
}

#[test]
fn chunks_reach_the_wire_unchanged_and_in_order() {
    // Producer reads three chunks and exits; the sender connects on the
    // third attempt and then drains everything: the wire holds the same
    // bytes in the same order.
    let pscript = ProducerScript {
        cmds: vec![
            CommandPoll::Received(SensorCommand::Start),
            CommandPoll::Empty,
            CommandPoll::Empty,
            CommandPoll::Received(SensorCommand::Exit),
        ],
        spawn_pids: vec![Some(21)],
        reads: vec![
            ProducerRead::Chunk(b"A".to_vec()),
            ProducerRead::Chunk(b"B".to_vec()),
            ProducerRead::Chunk(b"C".to_vec()),
        ],
        send_ok: vec![true, true, true],
        fuel: 16,
    };
    let (ptrace, strace) = run_pipeline(
        &pscript,
        vec![CommandPoll::Received(TcpMess::TryConnect)],
        vec![false, false, true],
        vec![true, true, true],
        16,
    );
    assert_eq!(ptrace.forwarded, vec![b"A".to_vec(), b"B".to_vec(), b"C".to_vec()]);
    assert_eq!(strace.written, vec![b"A".to_vec(), b"B".to_vec(), b"C".to_vec()]);
    assert_eq!(strace.dropped, Vec::<Vec<u8>>::new());
    assert_eq!(strace.attempts, 3);
}

#[test]
fn write_failure_loses_only_the_inflight_chunk_end_to_end() {
    let pscript = ProducerScript {
        cmds: vec![CommandPoll::Received(SensorCommand::Start)],
        spawn_pids: vec![Some(22)],
        reads: vec![
            ProducerRead::Chunk(b"A".to_vec()),
            ProducerRead::Chunk(b"B".to_vec()),
            ProducerRead::Chunk(b"C".to_vec()),
            ProducerRead::Eof,
        ],
        send_ok: vec![true, true, true],
        fuel: 16,
    };
    let (ptrace, strace) = run_pipeline(
        &pscript,
        vec![CommandPoll::Received(TcpMess::TryConnect)],
        vec![true, true],
        vec![true, false, true],
        16,
    );
    assert_eq!(ptrace.forwarded, vec![b"A".to_vec(), b"B".to_vec(), b"C".to_vec()]);
    assert_eq!(strace.written, vec![b"A".to_vec(), b"C".to_vec()]);
    assert_eq!(strace.dropped, vec![b"B".to_vec()]);
}

#[test]
fn display_counts_up_to_its_limit() {
    let (_tx, rx) = std::sync::mpsc::channel::<Vec<u8>>();
    let init = DisplayInitState { input_rx: rx, max_items: 2 };
    let (mut worker, _controller) = DisplayWorker::build(init);
    assert_eq!(worker.count, 0);
    assert!(!worker.note_chunk());
    assert!(!worker.note_chunk());
    assert!(worker.note_chunk());
    assert_eq!(worker.count, 3);
}

#[test]
fn vec_to_string_renders_bytes_as_chars() {
    assert_eq!(vec_to_string(b"abc".to_vec()), "abc");
    assert_eq!(vec_to_string(vec![]), "");
    assert_eq!(vec_to_string(vec![0xFF, 0x41]), "\u{FF}A");
}

#[test]
fn run_display_shows_up_to_limit_in_order() {
    let chunks = vec![b"one".to_vec(), b"two".to_vec(), b"three".to_vec()];
    assert_eq!(run_display(&chunks, 2), vec!["one".to_string(), "two".to_string()]);
    let all = run_display(&chunks, 10);
    assert_eq!(all, vec!["one".to_string(), "two".to_string(), "three".to_string()]);
    assert_eq!(run_display(&chunks, 0), Vec::<String>::new());
}
