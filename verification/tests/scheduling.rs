//! Scheduling behavior: spawn ordering, yielding, stealing progress,
//! sleeping and shutdown, driven through the state machine.

use coio::coroutine::{Options, State};
use coio::scheduler::{Decision, Scheduler};
use coio::sync::mpsc::{channel, RecvStep};

#[test]
fn test_spawn_runs_new_task_next() {
    // a spawn from within a running task parks the spawner behind the
    // new task: the new task runs next, the spawner right after, so
    // the spawner is not starved
    let mut s: Scheduler<u64> = Scheduler::with_workers(1);
    let spawner = s.spawn_opts(0, Options::default());
    assert_eq!(s.schedule_step(0), Decision::Run(spawner));
    let child = s.spawn_opts(0, Options::default());
    assert_eq!(s.schedule_step(0), Decision::Run(child));
    s.yield_with(0, State::Finished);
    assert_eq!(s.schedule_step(0), Decision::Run(spawner));
    s.yield_with(0, State::Finished);
    assert_eq!(s.schedule_step(0), Decision::Idle);
}

#[test]
fn test_sched_requeues_and_keeps_values() {
    // a yield moves no value: the channel contents are untouched and
    // the yielding task goes back to the queue, where a peer task
    // stays queued as well (both remain observable, e.g. to stealers)
    let mut s: Scheduler<u64> = Scheduler::with_workers(1);
    let (tx, rx) = channel(&mut s);
    assert_eq!(tx.send(&mut s, 11), Ok(()));
    let a = s.spawn_opts(0, Options::default());
    let b = s.spawn_opts(0, Options::default());
    assert_eq!(s.schedule_step(0), Decision::Run(b));
    s.sched(0);
    // the run queue now holds a and then b again; the value is intact
    assert_eq!(s.schedule_step(0), Decision::Run(b));
    s.sched(0);
    assert_eq!(rx.try_recv(&mut s), Ok(11));
    let _ = a;
}

#[test]
fn test_single_worker_makes_progress() {
    // one worker, several tasks that cooperatively yield a few times:
    // every task finishes
    let n_tasks: usize = 5;
    let yields_each: usize = 4;
    let mut s: Scheduler<u64> = Scheduler::with_workers(1);
    let mut handles = Vec::new();
    for _ in 0..n_tasks {
        handles.push(s.spawn_opts(0, Options::default()));
    }
    let mut yields_left: Vec<usize> = vec![yields_each; n_tasks];
    let mut finished: usize = 0;
    let mut turns: usize = 0;
    while finished < n_tasks {
        turns += 1;
        assert!(turns < 1000, "no progress under a single worker");
        match s.schedule_step(0) {
            Decision::Run(h) => {
                let i = handles.iter().position(|x| *x == h).unwrap();
                if yields_left[i] == 0 {
                    s.yield_with(0, State::Finished);
                    finished += 1;
                } else {
                    yields_left[i] -= 1;
                    s.sched(0);
                }
            }
            Decision::Again => {}
            d => panic!("unexpected decision {:?}", d),
        }
    }
    assert_eq!(s.schedule_step(0), Decision::Idle);
}

#[test]
fn test_steal_from_neighbor() {
    // work queued on processor 0 is stolen and run by an idle
    // processor 1
    let mut s: Scheduler<u64> = Scheduler::with_workers(2);
    let a = s.spawn_opts(0, Options::default());
    let b = s.spawn_opts(0, Options::default());
    match s.schedule_step(1) {
        Decision::Run(h) => {
            // the stealer takes the oldest entry of the victim's queue
            assert_eq!(h, a);
            s.yield_with(1, State::Finished);
        }
        d => panic!("steal expected, got {:?}", d),
    }
    assert_eq!(s.schedule_step(0), Decision::Run(b));
    s.yield_with(0, State::Finished);
}

#[test]
fn test_sleep_zero_behaves_as_yield() {
    // a zero sleep arms an already-due timer: without the clock
    // moving, the next driver turn makes the task runnable again
    let mut s: Scheduler<u64> = Scheduler::with_workers(1);
    let h = s.spawn_opts(0, Options::default());
    assert_eq!(s.schedule_step(0), Decision::Run(h));
    let tok = s.sleep_ms(0, 0);
    assert_eq!(s.find_expired(s.now), Some(tok));
    assert!(s.wake_token(tok, true));
    assert_eq!(s.schedule_step(0), Decision::Again);
    assert_eq!(s.schedule_step(0), Decision::Run(h));
    s.yield_with(0, State::Finished);
}

#[test]
fn test_wait_event_timeout_vs_readiness() {
    // a parked task is woken by whichever of readiness and timer
    // fires first, and the outcome says which
    let mut s: Scheduler<u64> = Scheduler::with_workers(1);
    let h = s.spawn_opts(0, Options::default());
    assert_eq!(s.schedule_step(0), Decision::Run(h));
    let tok = s.wait_event(0, Some(50));
    // not yet due just before the deadline
    s.advance_clock(49);
    assert_eq!(s.find_expired(s.now), None);
    // readiness arrives first
    assert!(s.wake_token(tok, false));
    assert_eq!(s.schedule_step(0), Decision::Again);
    assert_eq!(s.schedule_step(0), Decision::Run(h));
    assert_eq!(s.take_wake_outcome(0), Some(coio::coroutine::WakeOutcome::Readiness));
    s.yield_with(0, State::Finished);
}

#[test]
fn test_shutdown_unwinds_everything() {
    // after Shutdown is latched, no user code runs: a task woken
    // during shutdown gets one final force-unwound resume, a task
    // still parked dies with its wait structure, and the processor
    // exits
    let mut s: Scheduler<u64> = Scheduler::with_workers(1);
    let (tx, rx) = channel(&mut s);
    let (_tx2, rx2) = channel(&mut s);
    let a = s.spawn_opts(0, Options::default());
    let b = s.spawn_opts(0, Options::default());
    assert_eq!(s.schedule_step(0), Decision::Run(b));
    assert_eq!(rx.recv(&mut s, 0), RecvStep::Parked);
    assert_eq!(s.schedule_step(0), Decision::Run(a));
    assert_eq!(rx2.recv(&mut s, 0), RecvStep::Parked);

    s.shutdown();
    // a send now wakes b, but its Ready message sits behind Shutdown
    assert_eq!(tx.send(&mut s, 1), Ok(()));
    // the shutdown message latches the exit flag
    assert_eq!(s.schedule_step(0), Decision::Again);
    // the wake is still honored, but only as a final unwound resume
    assert_eq!(s.schedule_step(0), Decision::Again);
    assert_eq!(s.schedule_step(0), Decision::Unwound(b));
    assert_eq!(s.schedule_step(0), Decision::Exited);
}

#[test]
fn test_drain_after_shutdown() {
    // tasks spawned onto a processor that has already latched
    // shutdown are all force-unwound by the drain, and none runs
    let mut s: Scheduler<u64> = Scheduler::with_workers(1);
    s.shutdown();
    assert_eq!(s.schedule_step(0), Decision::Again);
    for _ in 0..4 {
        s.spawn_opts(0, Options::default());
    }
    s.drain_after_shutdown(0);
    assert_eq!(s.schedule_step(0), Decision::Exited);
}

#[test]
fn test_spawn_from_outside_routes_through_inbox() {
    // a spawn from a thread with no processor is routed to processor
    // 0 through its inbox, like any cross-thread wake
    let mut s: Scheduler<u64> = Scheduler::with_workers(2);
    let h = s.spawn_outside(Options::default());
    assert_eq!(s.schedule_step(0), Decision::Again);
    assert_eq!(s.schedule_step(0), Decision::Run(h));
    s.yield_with(0, State::Finished);
}

#[test]
fn test_ring() {
    // a ring of tasks, each forwarding its input plus one; the master
    // injects i + 1 and reads an increasing value back after one lap;
    // a zero terminates every node
    let iters: usize = 10000;
    let size: usize = 503;
    let workers: usize = 4;

    let mut s: Scheduler<usize> = Scheduler::with_workers(workers);

    // master's channel: it receives on ring_rx; the first node sends
    // into master_tx
    let (master_tx, master_rx) = channel(&mut s);

    // build the ring: node k receives on its own channel and forwards
    // to the previous send end, exactly as chained task spawns would
    let mut send = master_tx;
    let mut nodes = Vec::new();
    for _ in 0..size - 1 {
        let (tx, rx) = channel(&mut s);
        let h = s.spawn_opts(0, Options::default());
        nodes.push((h, rx, send));
        send = tx;
    }

    let master = s.spawn_opts(0, Options::default());
    let mut master_iter: usize = 0;
    let mut master_value: usize = 0;
    let mut last_observed: usize = 0;
    let mut done = false;
    let mut master_done_sent = false;
    let mut zero_sent = false;
    let mut idle_in_a_row: usize = 0;

    while !done {
        let mut progressed = false;
        for pid in 0..workers {
            match s.schedule_step(pid) {
                Decision::Run(h) => {
                    progressed = true;
                    if h == master {
                        loop {
                            if master_iter < iters {
                                if !master_done_sent {
                                    send.send(&mut s, master_value + 1).unwrap();
                                    master_done_sent = true;
                                }
                                match master_rx.recv(&mut s, pid) {
                                    RecvStep::Got(v) => {
                                        assert!(v > last_observed);
                                        last_observed = v;
                                        master_value = v;
                                        master_iter += 1;
                                        master_done_sent = false;
                                    }
                                    RecvStep::Parked => break,
                                    RecvStep::Disconnected => panic!("ring broke"),
                                }
                            } else {
                                // terminate the ring
                                if !zero_sent {
                                    send.send(&mut s, 0).unwrap();
                                    zero_sent = true;
                                }
                                match master_rx.recv(&mut s, pid) {
                                    RecvStep::Got(v) => {
                                        assert_eq!(v, 0);
                                        s.yield_with(pid, State::Finished);
                                        done = true;
                                        break;
                                    }
                                    RecvStep::Parked => break,
                                    RecvStep::Disconnected => panic!("ring broke"),
                                }
                            }
                        }
                    } else {
                        // node handles are the first `size - 1` slots
                        let k = h;
                        loop {
                            let step = nodes[k].1.recv(&mut s, pid);
                            match step {
                                RecvStep::Got(0) => {
                                    nodes[k].2.send(&mut s, 0).unwrap();
                                    s.yield_with(pid, State::Finished);
                                    break;
                                }
                                RecvStep::Got(v) => {
                                    nodes[k].2.send(&mut s, v + 1).unwrap();
                                }
                                RecvStep::Parked => break,
                                RecvStep::Disconnected => panic!("ring broke"),
                            }
                        }
                    }
                }
                Decision::Again => {
                    progressed = true;
                }
                Decision::Idle => {}
                d => panic!("unexpected decision {:?}", d),
            }
            if done {
                break;
            }
        }
        if progressed {
            idle_in_a_row = 0;
        } else {
            idle_in_a_row += 1;
            assert!(idle_in_a_row < 3, "ring deadlocked");
        }
    }
    assert_eq!(master_iter, iters);
    assert!(last_observed >= iters);
}
