//! The socket and pipe adapters: constructors, the non-blocking retry
//! template on real loopback sockets, and the per-operation timeout
//! through the scheduler model.

use coio::coroutine::{Options, WakeOutcome};
use coio::io::Io;
use coio::net::tcp::{TcpListener, TcpStream};
use coio::net::udp::UdpSocket;
use coio::net::unix::{pipe, UnixSocket};
use coio::net::{wait_for_io, IoAction, IoInterest};
use coio::scheduler::{Decision, Scheduler};

#[test]
fn test_udp_constructors_and_timeout_bookkeeping() {
    let mut s4 = UdpSocket::v4().unwrap();
    assert_eq!(s4.timeout(), None);
    s4.set_timeout(Some(75));
    assert_eq!(s4.timeout(), Some(75));
    s4.save_timeout(9);
    assert_eq!(s4.timeout(), Some(75));
    assert_eq!(s4.take_timeout(), Some(9));
    assert_eq!(s4.take_timeout(), None);

    // a clone shares the socket but starts with fresh bookkeeping
    let c = s4.try_clone().unwrap();
    assert_eq!(c.timeout(), None);

    let s6 = UdpSocket::v6();
    // IPv6 may be unavailable in some environments; when it is
    // available the bookkeeping starts empty
    if let Ok(sock) = s6 {
        assert_eq!(sock.timeout(), None);
    }
}

#[test]
fn test_udp_recv_timeout() {
    // a receive with no sender parks; with a 50 ms per-op timeout the
    // timer fires first, in the window after 50 and the task resumes
    // with the timed-out outcome
    let mut sock = UdpSocket::bind("127.0.0.1:0").unwrap();
    sock.set_timeout(Some(50));
    let mut buf = vec![0u8; 32];
    match sock.recv_from(&mut buf) {
        IoAction::Park(i) => assert_eq!(i, IoInterest::Readable),
        IoAction::Return(_) => panic!("received with no sender"),
        IoAction::Error(e) => panic!("unexpected error {}", e.kind()),
    }

    let mut s: Scheduler<u64> = Scheduler::with_workers(1);
    let h = s.spawn_opts(0, Options::default());
    assert_eq!(s.schedule_step(0), Decision::Run(h));
    let tok = wait_for_io(&mut sock, &mut s, 0);

    // not due strictly before the deadline
    s.advance_clock(49);
    assert_eq!(s.find_expired(s.now), None);
    // due once 50 ms have passed
    s.advance_clock(50);
    assert_eq!(s.find_expired(s.now), Some(tok));
    assert!(s.wake_token(tok, true));

    assert_eq!(s.schedule_step(0), Decision::Again);
    assert_eq!(s.schedule_step(0), Decision::Run(h));
    assert_eq!(s.take_wake_outcome(0), Some(WakeOutcome::TimedOut));
    // the adapter clears its remembered timer
    assert_eq!(sock.take_timeout(), Some(tok));
}

#[test]
fn test_udp_send_recv_loopback() {
    let a = UdpSocket::bind("127.0.0.1:0").unwrap();
    let b = UdpSocket::bind("127.0.0.1:0").unwrap();
    let b_addr = b.local_addr().unwrap();
    let a_addr = a.local_addr().unwrap();

    let data = b"datagram";
    let mut spins: usize = 0;
    loop {
        spins += 1;
        assert!(spins < 1000000, "udp send never completed");
        match a.send_to(data, b_addr.as_str()) {
            IoAction::Return(n) => {
                assert_eq!(n, data.len());
                break;
            }
            IoAction::Park(_) => {}
            IoAction::Error(e) => {
                // some build environments have no usable loopback
                println!("skipping round trip: loopback unavailable ({})", e.kind());
                return;
            }
        }
    }

    let mut buf = vec![0u8; 64];
    spins = 0;
    loop {
        spins += 1;
        assert!(spins < 1000000, "udp recv never completed");
        match b.recv_from(&mut buf) {
            IoAction::Return((n, from)) => {
                assert_eq!(&buf[..n], data);
                assert_eq!(from, a_addr);
                break;
            }
            IoAction::Park(_) => {}
            IoAction::Error(e) => panic!("udp recv failed: {}", e.kind()),
        }
    }
}

#[test]
fn test_tcp_echo() {
    // bind a listener, connect a client, echo four bytes; everything
    // single-threaded over the non-blocking template with bounded
    // retries
    let l = TcpListener::bind("127.0.0.1:0").unwrap();
    let addr = l.local_addr().unwrap();
    let client = match TcpStream::connect(addr.as_str()) {
        Ok(c) => c,
        Err(e) => {
            // some build environments have no usable loopback; the
            // template is still exercised by the pipe round trip
            println!("skipping echo: loopback unavailable ({})", e.kind());
            return;
        }
    };

    let mut server: Option<TcpStream> = None;
    for _ in 0..1000000 {
        match l.accept() {
            IoAction::Return(st) => {
                server = Some(st);
                break;
            }
            IoAction::Park(i) => assert_eq!(i, IoInterest::Readable),
            IoAction::Error(e) => panic!("accept failed: {}", e.kind()),
        }
    }
    let server = server.expect("accept never completed");

    // client writes ABCD, retrying while the connection completes
    let data = b"ABCD";
    let mut written: usize = 0;
    let mut spins: usize = 0;
    while written < 4 {
        spins += 1;
        assert!(spins < 1000000, "client write never completed");
        match client.write(&data[written..]) {
            IoAction::Return(n) => written += n,
            IoAction::Park(_) => {}
            IoAction::Error(e) => panic!("client write failed: {}", e.kind()),
        }
    }

    // server reads the four bytes and echoes them back
    let mut buf = vec![0u8; 16];
    let mut got: usize = 0;
    let mut echoed: Vec<u8> = Vec::new();
    spins = 0;
    while got < 4 {
        spins += 1;
        assert!(spins < 1000000, "server read never completed");
        match server.read(&mut buf) {
            IoAction::Return(n) => {
                echoed.extend_from_slice(&buf[..n]);
                got += n;
            }
            IoAction::Park(_) => {}
            IoAction::Error(e) => panic!("server read failed: {}", e.kind()),
        }
    }
    assert_eq!(&echoed[..], b"ABCD");

    let mut written_back: usize = 0;
    spins = 0;
    while written_back < 4 {
        spins += 1;
        assert!(spins < 1000000, "server write never completed");
        match server.write(&echoed[written_back..]) {
            IoAction::Return(n) => written_back += n,
            IoAction::Park(_) => {}
            IoAction::Error(e) => panic!("server write failed: {}", e.kind()),
        }
    }

    let mut back = vec![0u8; 16];
    let mut got_back: usize = 0;
    let mut answer: Vec<u8> = Vec::new();
    spins = 0;
    while got_back < 4 {
        spins += 1;
        assert!(spins < 1000000, "client read never completed");
        match client.read(&mut back) {
            IoAction::Return(n) => {
                answer.extend_from_slice(&back[..n]);
                got_back += n;
            }
            IoAction::Park(_) => {}
            IoAction::Error(e) => panic!("client read failed: {}", e.kind()),
        }
    }
    assert_eq!(&answer[..], b"ABCD");
}

#[test]
fn test_tcp_try_clone_and_incoming() {
    let l = TcpListener::bind("127.0.0.1:0").unwrap();
    let l2 = l.try_clone().unwrap();
    let mut inc = l2.incoming();
    // with no pending connection, one accept turn asks to park
    match inc.next() {
        Some(IoAction::Park(i)) => assert_eq!(i, IoInterest::Readable),
        Some(IoAction::Return(_)) => panic!("accepted out of thin air"),
        Some(IoAction::Error(e)) => panic!("accept failed: {}", e.kind()),
        None => panic!("incoming ended"),
    }
}

#[test]
fn test_pipe_roundtrip() {
    let (mut r, mut w) = pipe().unwrap();
    let data = b"ping";
    let mut written: usize = 0;
    let mut spins: usize = 0;
    while written < 4 {
        spins += 1;
        assert!(spins < 1000000, "pipe write never completed");
        match w.write(&data[written..]) {
            IoAction::Return(n) => written += n,
            IoAction::Park(_) => {}
            IoAction::Error(e) => panic!("pipe write failed: {}", e.kind()),
        }
    }
    let mut buf = vec![0u8; 8];
    let mut got: Vec<u8> = Vec::new();
    spins = 0;
    while got.len() < 4 {
        spins += 1;
        assert!(spins < 1000000, "pipe read never completed");
        match r.read(&mut buf) {
            IoAction::Return(n) => got.extend_from_slice(&buf[..n]),
            IoAction::Park(_) => {}
            IoAction::Error(e) => panic!("pipe read failed: {}", e.kind()),
        }
    }
    assert_eq!(&got[..], b"ping");
}

#[test]
fn test_unix_socket_lifecycle() {
    // an unbound socket remembers nothing; binding records the path;
    // listening without a bind is an invalid-input error
    let us = UnixSocket::stream().unwrap();
    assert!(us.path.is_none());
    assert!(us.listen(128).is_err());

    let mut us2 = UnixSocket::stream().unwrap();
    us2.bind("/tmp/nonexistent-dir-for-sure/sock").unwrap();
    assert!(us2.path.is_some());
    // the path only takes effect at listen, where the OS rejects it
    assert!(us2.listen(128).is_err());

    // connecting to a socket nobody listens on fails
    assert!(UnixSocket::stream().unwrap().connect("/tmp/nonexistent-dir-for-sure/sock").is_err());
}
