//! Executable models of the two run loops and the ordering guarantees of
//! the chunk pipeline.
//!
//! The run loops themselves block on subprocess reads, connection attempts
//! and socket writes, so the embedding program drives them; here the same
//! decision logic runs against a script of outcomes, which makes the
//! supervision and ordering guarantees both provable and testable.  A script
//! that runs out is read as the quietest continuation: no further commands,
//! failing launches and connections, a closed data stream, failing writes.

use vstd::prelude::*;
use crate::channels::CommandPoll;
use crate::display::{chars_of, vec_to_string};
use crate::sensor::{
    closed_log, emit_termination, lemma_closed_log_append_block, lemma_spawn_block_parts,
    poll_action, poll_step, spawn_block, term_events, ProcEvent, ProducerAction, ProducerMachine,
    SensorCommand,
};
use crate::tcp_sender::{
    sender_action_of, sender_connect_step, sender_poll_step, sender_write_step, SenderAction,
    SenderMachine, SenderState, TcpMess,
};

verus! {

/// The views of a sequence of byte chunks.
pub open spec fn views_of(s: Seq<Vec<u8>>) -> Seq<Seq<u8>> {
    s.map_values(|v: Vec<u8>| v@)
}

proof fn lemma_views_of_push(s: Seq<Vec<u8>>, v: Vec<u8>)
    ensures
        views_of(s.push(v)) == views_of(s).push(v@),
{
    assert(views_of(s.push(v)) =~= views_of(s).push(v@));
}

/// An exact copy of one byte chunk.
fn clone_chunk(v: &Vec<u8>) -> (r: Vec<u8>)
    ensures
        r@ == v@,
{
    let mut r: Vec<u8> = Vec::new();
    let mut i: usize = 0;
    while i < v.len()
        invariant
            i <= v@.len(),
            r@ == v@.take(i as int),
        decreases v@.len() - i,
    {
        r.push(v[i]);
        proof {
            assert(r@ =~= v@.take(i + 1 as int));
        }
        i = i + 1;
    }
    proof {
        assert(v@.take(v@.len() as int) =~= v@);
    }
    r
}

/// One outcome of a blocking read of the subprocess's output stream: a
/// non-empty chunk of bytes, the end of the stream, or a read error.
pub enum ProducerRead {
    Chunk(Vec<u8>),
    Eof,
    Failed,
}

/// The chunk payloads among a sequence of read outcomes, in read order.
pub open spec fn chunk_seq(reads: Seq<ProducerRead>) -> Seq<Seq<u8>>
    decreases reads.len(),
{
    if reads.len() == 0 {
        Seq::empty()
    } else {
        let rest = chunk_seq(reads.drop_last());
        match reads.last() {
            ProducerRead::Chunk(v) => rest.push(v@),
            _ => rest,
        }
    }
}

proof fn lemma_chunk_seq_take_succ(reads: Seq<ProducerRead>, n: int)
    requires
        0 <= n < reads.len(),
    ensures
        reads[n] matches ProducerRead::Chunk(v) ==> chunk_seq(reads.take(n + 1)) == chunk_seq(
            reads.take(n),
        ).push(v@),
        !(reads[n] is Chunk) ==> chunk_seq(reads.take(n + 1)) == chunk_seq(reads.take(n)),
{
    assert(reads.take(n + 1).drop_last() =~= reads.take(n));
    assert(reads.take(n + 1).last() == reads[n]);
}

proof fn lemma_chunk_seq_take_prefix(reads: Seq<ProducerRead>, n: int)
    requires
        0 <= n <= reads.len(),
    ensures
        chunk_seq(reads.take(n)).len() <= chunk_seq(reads).len(),
        chunk_seq(reads.take(n)) == chunk_seq(reads).take(chunk_seq(reads.take(n)).len() as int),
    decreases reads.len() - n,
{
    if n == reads.len() {
        assert(reads.take(n) =~= reads);
        assert(chunk_seq(reads).take(chunk_seq(reads).len() as int) =~= chunk_seq(reads));
    } else {
        lemma_chunk_seq_take_succ(reads, n);
        lemma_chunk_seq_take_prefix(reads, n + 1);
        let a = chunk_seq(reads.take(n));
        let b = chunk_seq(reads.take(n + 1));
        let c = chunk_seq(reads);
        assert(a.len() <= b.len() <= c.len());
        assert forall|t: int| 0 <= t < a.len() implies a[t] == c[t] by {
            assert(a[t] == b[t]);
            assert(b[t] == c.take(b.len() as int)[t]);
        }
        assert(a =~= c.take(a.len() as int));
    }
}

/// The command polled at an iteration of a scripted run; a script that has
/// run out yields nothing.
pub open spec fn cmd_at<C>(cmds: Seq<CommandPoll<C>>, i: int) -> CommandPoll<C> {
    if 0 <= i < cmds.len() {
        cmds[i]
    } else {
        CommandPoll::Empty
    }
}

/// The outcome of a launch attempt; a script that has run out fails.
pub open spec fn pid_at(pids: Seq<Option<u32>>, i: int) -> Option<u32> {
    if 0 <= i < pids.len() {
        pids[i]
    } else {
        None
    }
}

/// One scripted outcome consumed: the cursor moves only while the script
/// still has entries.
pub open spec fn bump(i: int, len: int) -> int {
    if i < len {
        i + 1
    } else {
        i
    }
}

/// A script for one run of the producer actor's loop: the command polled at
/// each iteration, the outcome of each launch attempt, the outcome of each
/// read, and whether each forward onto the data channel is accepted.
pub struct ProducerScript {
    pub cmds: Vec<CommandPoll<SensorCommand>>,
    pub spawn_pids: Vec<Option<u32>>,
    pub reads: Vec<ProducerRead>,
    pub send_ok: Vec<bool>,
    pub fuel: usize,
}

/// What one scripted producer run leaves behind: the supervision log, the
/// chunks forwarded onto the data channel, and the final machine.
pub struct ProducerTrace {
    pub events: Vec<ProcEvent>,
    pub forwarded: Vec<Vec<u8>>,
    pub machine: ProducerMachine,
}

/// Everything one scripted producer run determines: the machine, the
/// supervision log, the forwarded chunk payloads, the script cursors and
/// the number of iterations taken.
pub struct ProducerModel {
    pub machine: ProducerMachine,
    pub events: Seq<ProcEvent>,
    pub forwarded: Seq<Seq<u8>>,
    pub spawned: int,
    pub read: int,
    pub sent: int,
    pub iters: int,
}

/// A launch attempt: the next scripted outcome becomes the owned
/// subprocess; a successful spawn is logged.
pub open spec fn producer_launch_spec(m: ProducerModel, pids: Seq<Option<u32>>) -> ProducerModel {
    let pid = pid_at(pids, m.spawned);
    ProducerModel {
        machine: ProducerMachine { owned: pid, done: m.machine.done },
        events: match pid {
            Some(q) => m.events.push(ProcEvent::Spawned(q)),
            None => m.events,
        },
        spawned: bump(m.spawned, pids.len() as int),
        ..m
    }
}

/// The command phase of one iteration, after the poll has been applied to
/// the machine: terminations are logged as the four escalation events.
pub open spec fn producer_cmd_spec(
    m: ProducerModel,
    a: ProducerAction,
    pids: Seq<Option<u32>>,
) -> ProducerModel {
    match a {
        ProducerAction::LaunchChild => producer_launch_spec(m, pids),
        ProducerAction::ReplaceChild => {
            let pid = m.machine.owned.unwrap();
            let torn = ProducerModel {
                machine: ProducerMachine { owned: None, done: m.machine.done },
                events: m.events + term_events(pid),
                ..m
            };
            producer_launch_spec(torn, pids)
        },
        ProducerAction::TerminateChild => {
            let pid = m.machine.owned.unwrap();
            ProducerModel {
                machine: ProducerMachine { owned: None, done: m.machine.done },
                events: m.events + term_events(pid),
                ..m
            }
        },
        _ => m,
    }
}

/// The read phase of one iteration: while the run goes on and a subprocess
/// is owned, the next read outcome is consumed; a chunk is forwarded when
/// its send is accepted, and a failed send, the end of the stream or a read
/// error ends the run.
pub open spec fn producer_read_spec(
    m: ProducerModel,
    reads: Seq<ProducerRead>,
    sends: Seq<bool>,
) -> ProducerModel {
    if m.machine.done || m.machine.owned is None {
        m
    } else if m.read < reads.len() {
        match reads[m.read] {
            ProducerRead::Chunk(v) => {
                let ok = ok_at(sends, m.sent);
                ProducerModel {
                    machine: ProducerMachine { owned: m.machine.owned, done: !ok },
                    forwarded: if ok {
                        m.forwarded.push(v@)
                    } else {
                        m.forwarded
                    },
                    read: m.read + 1,
                    sent: bump(m.sent, sends.len() as int),
                    ..m
                }
            },
            _ => ProducerModel {
                machine: ProducerMachine { owned: m.machine.owned, done: true },
                read: m.read + 1,
                ..m
            },
        }
    } else {
        ProducerModel { machine: ProducerMachine { owned: m.machine.owned, done: true }, ..m }
    }
}

/// One full iteration of the producer's run loop as a function of the
/// script; the iteration index doubles as the command cursor.
pub open spec fn producer_step_spec(
    m: ProducerModel,
    cmds: Seq<CommandPoll<SensorCommand>>,
    pids: Seq<Option<u32>>,
    reads: Seq<ProducerRead>,
    sends: Seq<bool>,
) -> ProducerModel {
    let p = cmd_at(cmds, m.iters);
    let polled = ProducerModel { machine: poll_step(m.machine, p), ..m };
    let after_cmd = producer_cmd_spec(polled, poll_action(m.machine, p), pids);
    let after_read = producer_read_spec(after_cmd, reads, sends);
    ProducerModel { iters: m.iters + 1, ..after_read }
}

/// The producer's run after at most `n` iterations: the loop stops once the
/// machine is done, and iterations after that change nothing.
pub open spec fn producer_run_spec(
    cmds: Seq<CommandPoll<SensorCommand>>,
    pids: Seq<Option<u32>>,
    reads: Seq<ProducerRead>,
    sends: Seq<bool>,
    n: int,
) -> ProducerModel
    decreases n,
{
    if n <= 0 {
        ProducerModel {
            machine: ProducerMachine { owned: None, done: false },
            events: Seq::empty(),
            forwarded: Seq::empty(),
            spawned: 0,
            read: 0,
            sent: 0,
            iters: 0,
        }
    } else {
        let prev = producer_run_spec(cmds, pids, reads, sends, n - 1);
        if prev.machine.done {
            prev
        } else {
            producer_step_spec(prev, cmds, pids, reads, sends)
        }
    }
}

/// A finished run never changes again.
proof fn lemma_producer_run_spec_stable(
    cmds: Seq<CommandPoll<SensorCommand>>,
    pids: Seq<Option<u32>>,
    reads: Seq<ProducerRead>,
    sends: Seq<bool>,
    n: int,
    k: int,
)
    requires
        0 <= n <= k,
        producer_run_spec(cmds, pids, reads, sends, n).machine.done,
    ensures
        producer_run_spec(cmds, pids, reads, sends, k) == producer_run_spec(
            cmds,
            pids,
            reads,
            sends,
            n,
        ),
    decreases k - n,
{
    if n < k {
        lemma_producer_run_spec_stable(cmds, pids, reads, sends, n, k - 1);
    }
}

/// The whole scripted producer run: the loop up to the fuel bound, then the
/// teardown of any still-owned subprocess.
pub open spec fn producer_final_spec(
    cmds: Seq<CommandPoll<SensorCommand>>,
    pids: Seq<Option<u32>>,
    reads: Seq<ProducerRead>,
    sends: Seq<bool>,
    fuel: int,
) -> ProducerModel {
    let end = producer_run_spec(cmds, pids, reads, sends, fuel);
    match end.machine.owned {
        Some(pid) => ProducerModel {
            machine: ProducerMachine { owned: None, done: end.machine.done },
            events: end.events + term_events(pid),
            ..end
        },
        None => end,
    }
}

/// Runs the producer actor's loop against a script.  The whole trace is a
/// function of the script — [`producer_final_spec`] determines the final
/// machine, the supervision log and the forwarded payloads — and whatever
/// the script holds, the run ends owning no subprocess, its supervision log
/// is closed — every spawned subprocess went through the full escalation
/// and was reaped in time — and the chunks forwarded are exactly the first
/// chunks read, unchanged and in read order.
pub fn run_producer(script: &ProducerScript) -> (trace: ProducerTrace)
    ensures
        ({
            let f = producer_final_spec(
                script.cmds@,
                script.spawn_pids@,
                script.reads@,
                script.send_ok@,
                script.fuel as int,
            );
            trace.machine == f.machine && trace.events@ == f.events && views_of(trace.forwarded@)
                == f.forwarded
        }),
        trace.machine.owned is None,
        closed_log(trace.events@),
        views_of(trace.forwarded@) == chunk_seq(script.reads@).take(trace.forwarded@.len() as int),
        trace.forwarded@.len() <= chunk_seq(script.reads@).len(),
{
    let mut m = ProducerMachine::new();
    let mut events: Vec<ProcEvent> = Vec::new();
    let mut forwarded: Vec<Vec<u8>> = Vec::new();
    let mut si: usize = 0;
    let mut ri: usize = 0;
    let mut wi: usize = 0;
    let mut iter: usize = 0;

    while iter < script.fuel && !m.done
        invariant
            m.owned is Some ==> events@.len() >= 1 && events@.last() == ProcEvent::Spawned(
                m.owned.unwrap(),
            ) && closed_log(events@.drop_last()),
            m.owned is None ==> closed_log(events@),
            iter <= script.fuel,
            ri <= script.reads@.len(),
            si <= script.spawn_pids@.len(),
            wi <= script.send_ok@.len(),
            views_of(forwarded@) == chunk_seq(script.reads@.take(ri as int)).take(
                forwarded@.len() as int,
            ),
            forwarded@.len() <= chunk_seq(script.reads@.take(ri as int)).len(),
            !m.done ==> forwarded@.len() == chunk_seq(script.reads@.take(ri as int)).len(),
            ({
                let md = producer_run_spec(
                    script.cmds@,
                    script.spawn_pids@,
                    script.reads@,
                    script.send_ok@,
                    iter as int,
                );
                m == md.machine && events@ == md.events && views_of(forwarded@) == md.forwarded
                    && si as int == md.spawned && ri as int == md.read && wi as int == md.sent
                    && md.iters == iter as int
            }),
        decreases script.fuel - iter,
    {
        let ghost md0 = producer_run_spec(
            script.cmds@,
            script.spawn_pids@,
            script.reads@,
            script.send_ok@,
            iter as int,
        );
        let p = if iter < script.cmds.len() {
            script.cmds[iter]
        } else {
            CommandPoll::Empty
        };
        proof {
            assert(p == cmd_at(script.cmds@, md0.iters));
        }
        let a = m.on_poll(p);
        let ghost polled = ProducerModel { machine: poll_step(md0.machine, p), ..md0 };
        let ghost mdc = producer_cmd_spec(polled, poll_action(md0.machine, p), script.spawn_pids@);
        match a {
            ProducerAction::LaunchChild => {
                let pid = if si < script.spawn_pids.len() {
                    let q = script.spawn_pids[si];
                    si = si + 1;
                    q
                } else {
                    None
                };
                m.on_spawn_result(pid);
                let ghost evs0 = events@;
                if let Some(q) = pid {
                    events.push(ProcEvent::Spawned(q));
                    proof {
                        assert(events@.drop_last() =~= evs0);
                    }
                }
            },
            ProducerAction::ReplaceChild => {
                let pid_old = m.owned.unwrap();
                let ghost evs0 = events@;
                emit_termination(&mut events, pid_old);
                m.on_child_terminated();
                proof {
                    lemma_spawn_block_parts(pid_old);
                    assert(events@ =~= evs0.drop_last() + spawn_block(pid_old));
                    lemma_closed_log_append_block(evs0.drop_last(), pid_old);
                }
                let pid = if si < script.spawn_pids.len() {
                    let q = script.spawn_pids[si];
                    si = si + 1;
                    q
                } else {
                    None
                };
                m.on_spawn_result(pid);
                let ghost evs1 = events@;
                if let Some(q) = pid {
                    events.push(ProcEvent::Spawned(q));
                    proof {
                        assert(events@.drop_last() =~= evs1);
                    }
                }
            },
            ProducerAction::TerminateChild => {
                let pid_old = m.owned.unwrap();
                let ghost evs0 = events@;
                emit_termination(&mut events, pid_old);
                m.on_child_terminated();
                proof {
                    lemma_spawn_block_parts(pid_old);
                    assert(events@ =~= evs0.drop_last() + spawn_block(pid_old));
                    lemma_closed_log_append_block(evs0.drop_last(), pid_old);
                }
            },
            ProducerAction::ExitLoop => {},
            ProducerAction::IdleWait => {},
            ProducerAction::Proceed => {},
        }
        proof {
            assert(m == mdc.machine && events@ == mdc.events && si as int == mdc.spawned
                && views_of(forwarded@) == mdc.forwarded && ri as int == mdc.read && wi as int
                == mdc.sent);
        }
        let ghost mdr = producer_read_spec(mdc, script.reads@, script.send_ok@);

        if !m.done && m.owned.is_some() {
            if ri < script.reads.len() {
                let ghost reads0 = script.reads@;
                let r = &script.reads[ri];
                match r {
                    ProducerRead::Chunk(v) => {
                        let data = clone_chunk(v);
                        let ok = if wi < script.send_ok.len() {
                            let o = script.send_ok[wi];
                            wi = wi + 1;
                            o
                        } else {
                            false
                        };
                        m.on_forward_result(ok);
                        proof {
                            lemma_chunk_seq_take_succ(reads0, ri as int);
                        }
                        let ghost fwd0 = forwarded@;
                        ri = ri + 1;
                        if ok {
                            forwarded.push(data);
                            proof {
                                lemma_views_of_push(fwd0, data);
                                assert(views_of(forwarded@) =~= chunk_seq(
                                    reads0.take(ri as int),
                                ).take(forwarded@.len() as int));
                            }
                        } else {
                            proof {
                                assert(views_of(forwarded@) =~= chunk_seq(
                                    reads0.take(ri as int),
                                ).take(forwarded@.len() as int));
                            }
                        }
                    },
                    _ => {
                        m.on_read_end();
                        proof {
                            lemma_chunk_seq_take_succ(reads0, ri as int);
                        }
                        ri = ri + 1;
                    },
                }
            } else {
                m.on_read_end();
            }
        }
        proof {
            assert(m == mdr.machine && events@ == mdr.events && views_of(forwarded@)
                == mdr.forwarded && si as int == mdr.spawned && ri as int == mdr.read && wi as int
                == mdr.sent);
        }
        iter = iter + 1;
        proof {
            assert(producer_run_spec(
                script.cmds@,
                script.spawn_pids@,
                script.reads@,
                script.send_ok@,
                iter as int,
            ) == producer_step_spec(
                md0,
                script.cmds@,
                script.spawn_pids@,
                script.reads@,
                script.send_ok@,
            ));
        }
    }
    proof {
        let md = producer_run_spec(
            script.cmds@,
            script.spawn_pids@,
            script.reads@,
            script.send_ok@,
            iter as int,
        );
        if m.done && iter < script.fuel {
            lemma_producer_run_spec_stable(
                script.cmds@,
                script.spawn_pids@,
                script.reads@,
                script.send_ok@,
                iter as int,
                script.fuel as int,
            );
        }
        assert(producer_run_spec(
            script.cmds@,
            script.spawn_pids@,
            script.reads@,
            script.send_ok@,
            script.fuel as int,
        ) == md);
    }

    if m.owned.is_some() {
        let pid_old = m.owned.unwrap();
        let ghost evs0 = events@;
        emit_termination(&mut events, pid_old);
        m.on_child_terminated();
        proof {
            lemma_spawn_block_parts(pid_old);
            assert(events@ =~= evs0.drop_last() + spawn_block(pid_old));
            lemma_closed_log_append_block(evs0.drop_last(), pid_old);
        }
    }

    proof {
        lemma_chunk_seq_take_prefix(script.reads@, ri as int);
        assert(chunk_seq(script.reads@).take(chunk_seq(script.reads@.take(ri as int)).len() as int)
            .take(forwarded@.len() as int) =~= chunk_seq(script.reads@).take(
            forwarded@.len() as int,
        ));
    }
    ProducerTrace { events, forwarded, machine: m }
}

/// Whether the write of the chunk at position `i` was accepted by the
/// stream; outcomes beyond the script fail.
pub open spec fn ok_at(ok: Seq<bool>, i: int) -> bool {
    0 <= i < ok.len() && ok[i]
}

/// The chunks on the wire after the sender has consumed the first `n`
/// chunks of the data channel: those whose write was accepted, in order.
pub open spec fn written_of(data: Seq<Seq<u8>>, ok: Seq<bool>, n: int) -> Seq<Seq<u8>>
    decreases n,
{
    if n <= 0 {
        Seq::empty()
    } else {
        let rest = written_of(data, ok, n - 1);
        if ok_at(ok, n - 1) {
            rest.push(data[n - 1])
        } else {
            rest
        }
    }
}

/// The chunks lost to a failing stream after the sender has consumed the
/// first `n` chunks: those whose write failed, in order.
pub open spec fn dropped_of(data: Seq<Seq<u8>>, ok: Seq<bool>, n: int) -> Seq<Seq<u8>>
    decreases n,
{
    if n <= 0 {
        Seq::empty()
    } else {
        let rest = dropped_of(data, ok, n - 1);
        if ok_at(ok, n - 1) {
            rest
        } else {
            rest.push(data[n - 1])
        }
    }
}

/// A script for one run of the sender actor's loop: the command polled at
/// each iteration, the outcome of each connection attempt, the chunks the
/// data channel holds (after which it reports its producer gone), and the
/// outcome of writing each consumed chunk.
pub struct SenderScript {
    pub cmds: Vec<CommandPoll<TcpMess>>,
    pub connects: Vec<bool>,
    pub chunks: Vec<Vec<u8>>,
    pub writes: Vec<bool>,
    pub fuel: usize,
}

/// What one scripted sender run leaves behind: the chunks written to the
/// stream, the chunks dropped by write failures, how many chunks were
/// consumed, how many connection attempts were made, the state after each
/// iteration, and the final machine.
pub struct SenderTrace {
    pub written: Vec<Vec<u8>>,
    pub dropped: Vec<Vec<u8>>,
    pub consumed: usize,
    pub attempts: usize,
    pub states: Vec<SenderState>,
    pub machine: SenderMachine,
}

/// Everything one scripted sender run determines: the final state, how many
/// chunks were consumed, how many connection attempts were made, and the
/// state after each iteration.
pub struct SenderModel {
    pub state: SenderState,
    pub consumed: int,
    pub attempts: int,
    pub states: Seq<SenderState>,
}

/// One full iteration of the sender's run loop as a function of the script:
/// the poll is applied first, then the state-local behaviour — one
/// connection attempt, or the consumption and write of one chunk, with a
/// drained channel read as the producing peer gone.  The number of states
/// recorded so far doubles as the iteration index.
pub open spec fn sender_step_spec(
    m: SenderModel,
    cmds: Seq<CommandPoll<TcpMess>>,
    connects: Seq<bool>,
    nchunks: int,
    writes: Seq<bool>,
) -> SenderModel {
    let s1 = sender_poll_step(m.state, cmd_at(cmds, m.states.len() as int));
    let stepped = match sender_action_of(s1) {
        SenderAction::ExitLoop => SenderModel { state: s1, ..m },
        SenderAction::SleepIdle => SenderModel { state: s1, ..m },
        SenderAction::AttemptConnect => SenderModel {
            state: sender_connect_step(s1, ok_at(connects, m.attempts)),
            attempts: m.attempts + 1,
            ..m
        },
        SenderAction::RecvChunk => if m.consumed < nchunks {
            SenderModel {
                state: sender_write_step(s1, ok_at(writes, m.consumed)),
                consumed: m.consumed + 1,
                ..m
            }
        } else {
            SenderModel { state: SenderState::Exit, ..m }
        },
    };
    SenderModel { states: m.states.push(stepped.state), ..stepped }
}

/// The sender's run after at most `n` iterations: the loop stops at the
/// terminal state, and iterations after that change nothing.
pub open spec fn sender_run_spec(
    init: SenderState,
    cmds: Seq<CommandPoll<TcpMess>>,
    connects: Seq<bool>,
    nchunks: int,
    writes: Seq<bool>,
    n: int,
) -> SenderModel
    decreases n,
{
    if n <= 0 {
        SenderModel { state: init, consumed: 0, attempts: 0, states: Seq::empty() }
    } else {
        let prev = sender_run_spec(init, cmds, connects, nchunks, writes, n - 1);
        if prev.state is Exit {
            prev
        } else {
            sender_step_spec(prev, cmds, connects, nchunks, writes)
        }
    }
}

/// A run that has reached the terminal state never changes again.
proof fn lemma_sender_run_spec_stable(
    init: SenderState,
    cmds: Seq<CommandPoll<TcpMess>>,
    connects: Seq<bool>,
    nchunks: int,
    writes: Seq<bool>,
    n: int,
    k: int,
)
    requires
        0 <= n <= k,
        sender_run_spec(init, cmds, connects, nchunks, writes, n).state is Exit,
    ensures
        sender_run_spec(init, cmds, connects, nchunks, writes, k) == sender_run_spec(
            init,
            cmds,
            connects,
            nchunks,
            writes,
            n,
        ),
    decreases k - n,
{
    if n < k {
        lemma_sender_run_spec_stable(init, cmds, connects, nchunks, writes, n, k - 1);
    }
}

/// Runs the sender actor's loop against a script, starting from `init`.
/// The whole trace is a function of the script — [`sender_run_spec`]
/// determines the final state, the chunks consumed, the connection attempts
/// and the state after each iteration — and whatever the script holds, the
/// chunks written to the stream are exactly the consumed chunks whose write
/// was accepted, unchanged and in consumption order; every consumed chunk
/// is either written or dropped by the one write failure that consumed it.
pub fn run_sender(init: SenderState, script: &SenderScript) -> (trace: SenderTrace)
    ensures
        ({
            let f = sender_run_spec(
                init,
                script.cmds@,
                script.connects@,
                script.chunks@.len() as int,
                script.writes@,
                script.fuel as int,
            );
            trace.machine.state == f.state && trace.consumed as int == f.consumed
                && trace.attempts as int == f.attempts && trace.states@ == f.states
        }),
        trace.consumed <= script.chunks@.len(),
        views_of(trace.written@) == written_of(
            views_of(script.chunks@),
            script.writes@,
            trace.consumed as int,
        ),
        views_of(trace.dropped@) == dropped_of(
            views_of(script.chunks@),
            script.writes@,
            trace.consumed as int,
        ),
        trace.written@.len() + trace.dropped@.len() == trace.consumed,
{
    let mut m = SenderMachine { state: init };
    let mut written: Vec<Vec<u8>> = Vec::new();
    let mut dropped: Vec<Vec<u8>> = Vec::new();
    let mut states: Vec<SenderState> = Vec::new();
    let mut di: usize = 0;
    let mut attempts: usize = 0;
    let mut iter: usize = 0;

    while iter < script.fuel && m.state != SenderState::Exit
        invariant
            di <= script.chunks@.len(),
            attempts <= iter,
            iter <= script.fuel,
            states@.len() == iter,
            views_of(written@) == written_of(views_of(script.chunks@), script.writes@, di as int),
            views_of(dropped@) == dropped_of(views_of(script.chunks@), script.writes@, di as int),
            written@.len() + dropped@.len() == di,
            ({
                let md = sender_run_spec(
                    init,
                    script.cmds@,
                    script.connects@,
                    script.chunks@.len() as int,
                    script.writes@,
                    iter as int,
                );
                m.state == md.state && di as int == md.consumed && attempts as int == md.attempts
                    && states@ == md.states
            }),
        decreases script.fuel - iter,
    {
        let ghost md0 = sender_run_spec(
            init,
            script.cmds@,
            script.connects@,
            script.chunks@.len() as int,
            script.writes@,
            iter as int,
        );
        let p = if iter < script.cmds.len() {
            script.cmds[iter]
        } else {
            CommandPoll::Empty
        };
        proof {
            assert(p == cmd_at(script.cmds@, md0.states.len() as int));
        }
        m.on_poll(p);
        match m.next_action() {
            SenderAction::ExitLoop => {},
            SenderAction::SleepIdle => {},
            SenderAction::AttemptConnect => {
                let ok = if attempts < script.connects.len() {
                    script.connects[attempts]
                } else {
                    false
                };
                attempts = attempts + 1;
                m.on_connect_result(ok);
            },
            SenderAction::RecvChunk => {
                if di < script.chunks.len() {
                    let data = clone_chunk(&script.chunks[di]);
                    let ok = if di < script.writes.len() {
                        script.writes[di]
                    } else {
                        false
                    };
                    m.on_write_result(ok);
                    let ghost w0 = written@;
                    let ghost d0 = dropped@;
                    di = di + 1;
                    if ok {
                        written.push(data);
                        proof {
                            lemma_views_of_push(w0, data);
                            assert(views_of(script.chunks@)[di - 1] == script.chunks@[di - 1]@);
                        }
                    } else {
                        dropped.push(data);
                        proof {
                            lemma_views_of_push(d0, data);
                            assert(views_of(script.chunks@)[di - 1] == script.chunks@[di - 1]@);
                        }
                    }
                } else {
                    m.on_recv_closed();
                }
            },
        }
        states.push(m.state);
        iter = iter + 1;
        proof {
            assert(sender_run_spec(
                init,
                script.cmds@,
                script.connects@,
                script.chunks@.len() as int,
                script.writes@,
                iter as int,
            ) == sender_step_spec(
                md0,
                script.cmds@,
                script.connects@,
                script.chunks@.len() as int,
                script.writes@,
            ));
        }
    }
    proof {
        let md = sender_run_spec(
            init,
            script.cmds@,
            script.connects@,
            script.chunks@.len() as int,
            script.writes@,
            iter as int,
        );
        if m.state == SenderState::Exit && iter < script.fuel {
            lemma_sender_run_spec_stable(
                init,
                script.cmds@,
                script.connects@,
                script.chunks@.len() as int,
                script.writes@,
                iter as int,
                script.fuel as int,
            );
        }
        assert(sender_run_spec(
            init,
            script.cmds@,
            script.connects@,
            script.chunks@.len() as int,
            script.writes@,
            script.fuel as int,
        ) == md);
    }
    SenderTrace { written, dropped, consumed: di, attempts, states, machine: m }
}

/// A sequence `a` is an order-preserving selection of `b`: every element of
/// `a` appears in `b`, in the same relative order, with no duplication
/// introduced.
pub open spec fn subsequence_of(a: Seq<Seq<u8>>, b: Seq<Seq<u8>>) -> bool
    decreases a.len(), b.len(),
{
    if a.len() == 0 {
        true
    } else if b.len() == 0 {
        false
    } else {
        (a.last() == b.last() && subsequence_of(a.drop_last(), b.drop_last())) || subsequence_of(
            a,
            b.drop_last(),
        )
    }
}

/// An order-preserving selection of a prefix of `b` is one of `b` itself.
pub proof fn lemma_subsequence_take(a: Seq<Seq<u8>>, b: Seq<Seq<u8>>, n: int)
    requires
        0 <= n <= b.len(),
        subsequence_of(a, b.take(n)),
    ensures
        subsequence_of(a, b),
    decreases b.len() - n,
{
    if n == b.len() {
        assert(b.take(n) =~= b);
    } else {
        assert(b.take(n + 1).drop_last() =~= b.take(n));
        if a.len() == 0 {
        } else {
            assert(subsequence_of(a, b.take(n + 1)));
        }
        lemma_subsequence_take(a, b, n + 1);
    }
}

/// What the sender writes is an order-preserving selection of what the data
/// channel held.
pub proof fn lemma_written_subsequence(data: Seq<Seq<u8>>, ok: Seq<bool>, n: int)
    requires
        0 <= n <= data.len(),
    ensures
        subsequence_of(written_of(data, ok, n), data.take(n)),
    decreases n,
{
    if n <= 0 {
    } else {
        lemma_written_subsequence(data, ok, n - 1);
        let w = written_of(data, ok, n);
        let b = data.take(n);
        assert(b.drop_last() =~= data.take(n - 1));
        assert(b.last() == data[n - 1]);
        if ok_at(ok, n - 1) {
            assert(w.last() == data[n - 1]);
            assert(w.drop_last() =~= written_of(data, ok, n - 1));
            assert(subsequence_of(w, b));
        } else {
            assert(subsequence_of(w, b));
        }
    }
}

/// For all byte chunks successfully forwarded into the network path, the
/// bytes written to the stream equal, byte for byte and in the same order,
/// the bytes read from the subprocess: whenever the sender drains a prefix
/// of what the producer forwarded (itself a prefix of the chunks read), the
/// wire holds an order-preserving selection of the chunks read, each one
/// unchanged — no corruption, no duplication, no reordering.
pub proof fn lemma_pipeline_preserves_bytes(
    reads: Seq<ProducerRead>,
    flen: int,
    ok: Seq<bool>,
    n: int,
)
    requires
        0 <= flen <= chunk_seq(reads).len(),
        0 <= n <= flen,
    ensures
        subsequence_of(written_of(chunk_seq(reads).take(flen), ok, n), chunk_seq(reads)),
{
    let data = chunk_seq(reads).take(flen);
    lemma_written_subsequence(data, ok, n);
    lemma_subsequence_take(written_of(data, ok, n), data, n);
    lemma_subsequence_take(written_of(data, ok, n), chunk_seq(reads), flen);
}

/// Drives one scripted producer run, then drains the chunks it forwarded
/// through one scripted sender run starting idle.  Everything the producer
/// guarantees and everything the sender guarantees holds, and end to end the
/// chunks written to the stream are an order-preserving selection of the
/// chunks read from the subprocess, each one byte-for-byte unchanged.
pub fn run_pipeline(
    pscript: &ProducerScript,
    cmds: Vec<CommandPoll<TcpMess>>,
    connects: Vec<bool>,
    writes: Vec<bool>,
    fuel: usize,
) -> (r: (ProducerTrace, SenderTrace))
    ensures
        ({
            let pf = producer_final_spec(
                pscript.cmds@,
                pscript.spawn_pids@,
                pscript.reads@,
                pscript.send_ok@,
                pscript.fuel as int,
            );
            r.0.machine == pf.machine && r.0.events@ == pf.events && views_of(r.0.forwarded@)
                == pf.forwarded
        }),
        ({
            let sf = sender_run_spec(
                SenderState::Idle,
                cmds@,
                connects@,
                r.0.forwarded@.len() as int,
                writes@,
                fuel as int,
            );
            r.1.machine.state == sf.state && r.1.consumed as int == sf.consumed
                && r.1.attempts as int == sf.attempts && r.1.states@ == sf.states
        }),
        r.0.machine.owned is None,
        closed_log(r.0.events@),
        views_of(r.0.forwarded@) == chunk_seq(pscript.reads@).take(r.0.forwarded@.len() as int),
        views_of(r.1.written@) == written_of(
            views_of(r.0.forwarded@),
            writes@,
            r.1.consumed as int,
        ),
        subsequence_of(views_of(r.1.written@), chunk_seq(pscript.reads@)),
{
    let ptrace = run_producer(pscript);
    let mut chunks: Vec<Vec<u8>> = Vec::new();
    let mut i: usize = 0;
    while i < ptrace.forwarded.len()
        invariant
            i <= ptrace.forwarded@.len(),
            views_of(chunks@) == views_of(ptrace.forwarded@).take(i as int),
        decreases ptrace.forwarded@.len() - i,
    {
        let ghost c0 = chunks@;
        let data = clone_chunk(&ptrace.forwarded[i]);
        chunks.push(data);
        proof {
            lemma_views_of_push(c0, data);
            assert(views_of(chunks@) =~= views_of(ptrace.forwarded@).take(i + 1 as int));
        }
        i = i + 1;
    }
    proof {
        assert(views_of(ptrace.forwarded@).take(ptrace.forwarded@.len() as int) =~= views_of(
            ptrace.forwarded@,
        ));
    }
    proof {
        assert(chunks@.len() == ptrace.forwarded@.len());
    }
    let sscript = SenderScript { cmds, connects, chunks, writes, fuel };
    let strace = run_sender(SenderState::Idle, &sscript);
    proof {
        lemma_pipeline_preserves_bytes(
            pscript.reads@,
            ptrace.forwarded@.len() as int,
            writes@,
            strace.consumed as int,
        );
    }
    (ptrace, strace)
}

/// How many chunks the display shows of `n` available before its limit
/// stops it.
pub open spec fn shown_count(n: int, limit: int) -> int {
    if n <= limit {
        n
    } else {
        limit
    }
}

/// Runs the display worker's loop against the chunks its channel will yield
/// before the producing peer goes away.  The first chunks up to the limit
/// are shown, rendered one character per byte and in arrival order; the
/// chunk that crosses the limit is not shown; the run stops at the limit or
/// when the channel reports its peer gone, whichever comes first.
pub fn run_display(chunks: &Vec<Vec<u8>>, limit: usize) -> (shown: Vec<String>)
    ensures
        shown@.len() == shown_count(chunks@.len() as int, limit as int),
        forall|i: int| 0 <= i < shown@.len() ==> (#[trigger] shown@[i])@ == chars_of(chunks@[i]@),
{
    let mut shown: Vec<String> = Vec::new();
    let mut i: usize = 0;
    while i < chunks.len() && i < limit
        invariant
            i <= chunks@.len(),
            i <= limit,
            shown@.len() == i as int,
            forall|t: int| 0 <= t < i ==> (#[trigger] shown@[t])@ == chars_of(chunks@[t]@),
        decreases chunks@.len() - i,
    {
        let rendered = vec_to_string(clone_chunk(&chunks[i]));
        shown.push(rendered);
        i = i + 1;
    }
    shown
}

} // verus!
