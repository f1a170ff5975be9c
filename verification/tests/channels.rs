//! Channel behavior, driven through the scheduler state machine: the
//! test plays the role of every task's code, calling the library
//! between `schedule_step` turns.

use coio::coroutine::{Options, State};
use coio::scheduler::{Decision, Scheduler};
use coio::sync::mpsc::{channel, sync_channel, RecvError, RecvStep, SendStep, TryRecvError,
    TrySendError};

#[test]
fn test_channel_basic() {
    let mut s: Scheduler<i32> = Scheduler::with_workers(1);
    let (tx, rx) = channel(&mut s);

    // main task
    let main_h = s.spawn_opts(0, Options::default());
    assert_eq!(s.schedule_step(0), Decision::Run(main_h));

    // main spawns a task that sends 1, 2, 3; the spawn parks main
    // behind the new task, which runs next
    let tx2 = tx.duplicate(&mut s);
    let sender_h = s.spawn_opts(0, Options::default());
    assert_eq!(s.schedule_step(0), Decision::Run(sender_h));
    assert_eq!(tx2.send(&mut s, 1), Ok(()));
    assert_eq!(tx2.send(&mut s, 2), Ok(()));
    assert_eq!(tx2.send(&mut s, 3), Ok(()));
    tx2.close(&mut s);
    s.yield_with(0, State::Finished);

    // main resumes and drains the three values without blocking
    assert_eq!(s.schedule_step(0), Decision::Run(main_h));
    assert_eq!(rx.try_recv(&mut s), Ok(1));
    assert_eq!(rx.try_recv(&mut s), Ok(2));
    assert_eq!(rx.try_recv(&mut s), Ok(3));

    // main spawns a task that sends 1..=9, then sleeps; the sender
    // runs while main is parked on its timer
    let tx3 = tx.duplicate(&mut s);
    let sender2_h = s.spawn_opts(0, Options::default());
    assert_eq!(s.schedule_step(0), Decision::Run(sender2_h));
    for i in 1..10 {
        assert_eq!(tx3.send(&mut s, i), Ok(()));
    }
    tx3.close(&mut s);
    s.yield_with(0, State::Finished);

    assert_eq!(s.schedule_step(0), Decision::Run(main_h));
    let tok = s.sleep_ms(0, 100);
    let now = s.now;
    s.advance_clock(now + 100);
    assert_eq!(s.find_expired(s.now), Some(tok));
    assert!(s.wake_token(tok, true));
    assert_eq!(s.schedule_step(0), Decision::Again);
    assert_eq!(s.schedule_step(0), Decision::Run(main_h));

    for i in 1..10 {
        assert_eq!(rx.recv(&mut s, 0), RecvStep::Got(i));
    }
    s.yield_with(0, State::Finished);
}

#[test]
fn test_sync_channel_basic() {
    let mut s: Scheduler<i32> = Scheduler::with_workers(1);
    let (tx, rx) = sync_channel(&mut s, 2);

    let main_h = s.spawn_opts(0, Options::default());
    assert_eq!(s.schedule_step(0), Decision::Run(main_h));

    // a task fills the bound and then overflows
    let tx2 = tx.duplicate(&mut s);
    let sender_h = s.spawn_opts(0, Options::default());
    assert_eq!(s.schedule_step(0), Decision::Run(sender_h));
    assert_eq!(tx2.try_send(&mut s, 1), Ok(()));
    assert_eq!(tx2.try_send(&mut s, 2), Ok(()));
    assert_eq!(tx2.try_send(&mut s, 3), Err(TrySendError::Full(3)));
    tx2.close(&mut s);
    s.yield_with(0, State::Finished);

    assert_eq!(s.schedule_step(0), Decision::Run(main_h));
    assert_eq!(rx.try_recv(&mut s), Ok(1));
    assert_eq!(rx.try_recv(&mut s), Ok(2));
    assert_eq!(rx.try_recv(&mut s), Err(TryRecvError::Empty));

    // a task sends 1..=9 through the bound of two, parking on the
    // full queue; main drains it, waking the parked sender each time
    let tx3 = tx.duplicate(&mut s);
    let sender2_h = s.spawn_opts(0, Options::default());
    let mut to_send: i32 = 1;
    let mut pending: Option<i32> = None;
    let mut received: Vec<i32> = Vec::new();
    let mut main_parked_recv = false;
    loop {
        match s.schedule_step(0) {
            Decision::Run(h) => {
                if h == sender2_h {
                    loop {
                        if to_send == 10 && pending.is_none() {
                            s.yield_with(0, State::Finished);
                            break;
                        }
                        let v = match pending.take() {
                            Some(v) => v,
                            None => to_send,
                        };
                        match tx3.send(&mut s, 0, v) {
                            SendStep::Sent => {
                                if v == to_send {
                                    to_send += 1;
                                }
                            }
                            SendStep::Parked(v2) => {
                                pending = Some(v2);
                                break;
                            }
                            SendStep::Disconnected(_) => panic!("receiver vanished"),
                        }
                    }
                } else {
                    assert_eq!(h, main_h);
                    loop {
                        if received.len() == 9 {
                            s.yield_with(0, State::Finished);
                            break;
                        }
                        match rx.recv(&mut s, 0) {
                            RecvStep::Got(v) => received.push(v),
                            RecvStep::Parked => {
                                main_parked_recv = true;
                                break;
                            }
                            RecvStep::Disconnected => panic!("senders vanished"),
                        }
                    }
                }
            }
            Decision::Again => {}
            Decision::Idle => panic!("deadlock: nothing runnable"),
            d => panic!("unexpected decision {:?}", d),
        }
        if received.len() == 9 && to_send == 10 && pending.is_none() {
            break;
        }
    }
    assert!(main_parked_recv);
    assert_eq!(received, vec![1, 2, 3, 4, 5, 6, 7, 8, 9]);
}

#[test]
fn test_channel_without_processor() {
    // two channels bridge the scheduler and a caller with no
    // processor: the outer caller uses the non-parking operations
    let mut s: Scheduler<i32> = Scheduler::with_workers(1);
    let (tx1, rx1) = channel(&mut s);
    let (tx2, rx2) = channel(&mut s);

    let entry_h = s.spawn_opts(0, Options::default());
    assert_eq!(s.schedule_step(0), Decision::Run(entry_h));

    // the entry task tries to receive before anything was sent and
    // parks
    assert_eq!(rx1.recv(&mut s, 0), RecvStep::Parked);

    // the outer caller sends 1, which wakes the parked receiver
    assert_eq!(tx1.send(&mut s, 1), Ok(()));
    assert_eq!(s.schedule_step(0), Decision::Again);
    assert_eq!(s.schedule_step(0), Decision::Run(entry_h));

    // the entry task retries, gets the value and answers with 2
    let got = rx1.recv(&mut s, 0);
    assert_eq!(got.into_result(), Ok(1));
    assert_eq!(tx2.send(&mut s, 2), Ok(()));
    s.yield_with(0, State::Finished);

    // the outer caller reads the answer without a processor
    assert_eq!(rx2.try_recv(&mut s), Ok(2));
}

#[test]
fn test_sync_channel_without_processor() {
    let mut s: Scheduler<i32> = Scheduler::with_workers(1);
    let (tx1, rx1) = sync_channel(&mut s, 1);
    let (tx2, rx2) = sync_channel(&mut s, 1);

    let entry_h = s.spawn_opts(0, Options::default());
    assert_eq!(s.schedule_step(0), Decision::Run(entry_h));

    assert_eq!(rx1.recv(&mut s, 0), RecvStep::Parked);

    assert_eq!(tx1.try_send(&mut s, 1), Ok(()));
    assert_eq!(s.schedule_step(0), Decision::Again);
    assert_eq!(s.schedule_step(0), Decision::Run(entry_h));

    assert_eq!(rx1.recv(&mut s, 0), RecvStep::Got(1));
    match tx2.send(&mut s, 0, 2) {
        SendStep::Sent => {}
        d => panic!("unexpected send step {:?}", d),
    }
    s.yield_with(0, State::Finished);

    assert_eq!(rx2.try_recv(&mut s), Ok(2));
}

#[test]
fn test_recv_disconnects_after_senders_drop() {
    // receivers created before any send, and dropped senders, give
    // disconnection exactly once the queue is drained
    let mut s: Scheduler<i32> = Scheduler::with_workers(1);
    let (tx, rx) = channel(&mut s);
    assert_eq!(rx.try_recv(&mut s), Err(TryRecvError::Empty));
    assert_eq!(tx.send(&mut s, 7), Ok(()));
    tx.close(&mut s);
    assert_eq!(rx.try_recv(&mut s), Ok(7));
    assert_eq!(rx.try_recv(&mut s), Err(TryRecvError::Disconnected));

    // a blocking receive reports the same as its classic result
    let h = s.spawn_opts(0, Options::default());
    assert_eq!(s.schedule_step(0), Decision::Run(h));
    let step = rx.recv(&mut s, 0);
    assert_eq!(step.into_result(), Err(RecvError));
    s.yield_with(0, State::Finished);
}

#[test]
fn test_send_after_receiver_drop_fails() {
    let mut s: Scheduler<i32> = Scheduler::with_workers(1);
    let (tx, rx) = channel(&mut s);
    rx.close(&mut s);
    match tx.send(&mut s, 5) {
        Err(e) => assert_eq!(e.0, 5),
        Ok(()) => panic!("send succeeded with no receiver"),
    }

    let (stx, srx) = sync_channel(&mut s, 1);
    srx.close(&mut s);
    assert_eq!(stx.try_send(&mut s, 9), Err(TrySendError::Disconnected(9)));
}

#[test]
fn test_send_then_recv_returns_value_exactly_once() {
    // send-then-receive on an empty channel hands the value over
    // exactly once, whether the receiver was parked or not
    let mut s: Scheduler<i32> = Scheduler::with_workers(1);
    let (tx, rx) = channel(&mut s);
    assert_eq!(tx.send(&mut s, 42), Ok(()));
    assert_eq!(rx.try_recv(&mut s), Ok(42));
    assert_eq!(rx.try_recv(&mut s), Err(TryRecvError::Empty));

    // parked-receiver interleaving: the send wakes the receiver and
    // its retry sees the value
    let entry_h = s.spawn_opts(0, Options::default());
    assert_eq!(s.schedule_step(0), Decision::Run(entry_h));
    assert_eq!(rx.recv(&mut s, 0), RecvStep::Parked);
    assert_eq!(tx.send(&mut s, 43), Ok(()));
    assert_eq!(s.schedule_step(0), Decision::Again);
    assert_eq!(s.schedule_step(0), Decision::Run(entry_h));
    assert_eq!(rx.recv(&mut s, 0), RecvStep::Got(43));
    assert_eq!(rx.try_recv(&mut s), Err(TryRecvError::Empty));
    s.yield_with(0, State::Finished);
}
