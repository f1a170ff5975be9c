//! UDP: a non-blocking datagram socket adapter.

use vstd::prelude::*;
use std::sync::Arc;
use crate::io::Io;
use crate::net::{IoAttempt, IoAction, IoInterest, IoTimeout, retry_decision};

verus! {

/// The underlying event-library socket, shared by clones of the
/// adapter; opaque to verification.  (Verus cannot see through the
/// shared handle; every access goes through the trusted wrappers
/// below.)
#[verifier::external_body]
pub struct UdpInner {
    inner: Arc<mio::net::UdpSocket>,
}

impl UdpInner {
    /// Relies on Arc::clone: another handle to the same socket.
    #[verifier::external_body]
    fn duplicate(&self) -> (r: UdpInner)
        ensures
            r == *self,
    {
        UdpInner { inner: self.inner.clone() }
    }
}

/// Relies on mio::net::UdpSocket::bind: a fresh non-blocking IPv4 UDP
/// socket on the wildcard address with an ephemeral port.
#[verifier::external_body]
fn sys_udp_v4() -> (r: Result<UdpInner, std::io::Error>) {
    let a = "0.0.0.0:0".parse().unwrap();
    match mio::net::UdpSocket::bind(a) {
        Ok(s) => Ok(UdpInner { inner: Arc::new(s) }),
        Err(e) => Err(e),
    }
}

/// Relies on mio::net::UdpSocket::bind: as `sys_udp_v4`, for IPv6.
#[verifier::external_body]
fn sys_udp_v6() -> (r: Result<UdpInner, std::io::Error>) {
    let a = "[::]:0".parse().unwrap();
    match mio::net::UdpSocket::bind(a) {
        Ok(s) => Ok(UdpInner { inner: Arc::new(s) }),
        Err(e) => Err(e),
    }
}

/// Relies on mio::net::UdpSocket::bind: a non-blocking socket bound to
/// the given address; a malformed address is an invalid-input error.
#[verifier::external_body]
fn sys_udp_bind(addr: &str) -> (r: Result<UdpInner, std::io::Error>) {
    match addr.parse() {
        Ok(a) => match mio::net::UdpSocket::bind(a) {
            Ok(s) => Ok(UdpInner { inner: Arc::new(s) }),
            Err(e) => Err(e),
        },
        Err(_) => Err(
            std::io::Error::new(std::io::ErrorKind::InvalidInput, "invalid socket address"),
        ),
    }
}

/// Relies on mio::net::UdpSocket::send_to: one non-blocking datagram
/// send; on success the kernel accepted at most the buffer's bytes.
#[verifier::external_body]
fn sys_udp_send_to(sock: &UdpInner, buf: &[u8], addr: &str) -> (r: IoAttempt<
    usize,
>)
    ensures
        r matches IoAttempt::Done(n) ==> n <= buf@.len(),
{
    let a = match addr.parse() {
        Ok(a) => a,
        Err(_) => return IoAttempt::Fail(
            std::io::Error::new(std::io::ErrorKind::InvalidInput, "invalid socket address"),
        ),
    };
    match sock.inner.send_to(buf, a) {
        Ok(n) => IoAttempt::Done(n),
        Err(e) if e.kind() == std::io::ErrorKind::WouldBlock => IoAttempt::WouldBlock,
        Err(e) if e.kind() == std::io::ErrorKind::NotConnected => IoAttempt::NotConnected,
        Err(e) => IoAttempt::Fail(e),
    }
}

/// Relies on mio::net::UdpSocket::recv_from: one non-blocking datagram
/// receive; on success at most the buffer's bytes were filled, the
/// buffer keeps its length, and the peer address is rendered as text.
#[verifier::external_body]
fn sys_udp_recv_from(sock: &UdpInner, buf: &mut Vec<u8>) -> (r: IoAttempt<
    (usize, String),
>)
    ensures
        r matches IoAttempt::Done(p) ==> p.0 <= old(buf)@.len(),
        final(buf)@.len() == old(buf)@.len(),
{
    match sock.inner.recv_from(buf.as_mut_slice()) {
        Ok((n, a)) => IoAttempt::Done((n, format!("{}", a))),
        Err(e) if e.kind() == std::io::ErrorKind::WouldBlock => IoAttempt::WouldBlock,
        Err(e) => IoAttempt::Fail(e),
    }
}

/// Relies on mio::net::UdpSocket::local_addr, rendered as text.
#[verifier::external_body]
fn sys_udp_local_addr(sock: &UdpInner) -> (r: Result<String, std::io::Error>) {
    match sock.inner.local_addr() {
        Ok(a) => Ok(format!("{}", a)),
        Err(e) => Err(e),
    }
}

/// A non-blocking UDP socket with per-operation timeout bookkeeping.
/// Clones share the one underlying socket.
pub struct UdpSocket {
    pub inner: UdpInner,
    pub timeout: IoTimeout,
}

impl UdpSocket {
    fn new(inner: UdpInner) -> (r: UdpSocket)
        ensures
            r.timeout.delay is None,
            r.timeout.timer is None,
    {
        UdpSocket { inner, timeout: IoTimeout::new() }
    }

    /// A new, non-blocking IPv4 UDP socket on an ephemeral port of the
    /// wildcard address.
    pub fn v4() -> (r: Result<UdpSocket, std::io::Error>)
        ensures
            r matches Ok(s) ==> s.timeout.delay is None && s.timeout.timer is None,
    {
        match sys_udp_v4() {
            Ok(inner) => Ok(UdpSocket::new(inner)),
            Err(e) => Err(e),
        }
    }

    /// A new, non-blocking IPv6 UDP socket on an ephemeral port of the
    /// wildcard address.
    pub fn v6() -> (r: Result<UdpSocket, std::io::Error>)
        ensures
            r matches Ok(s) ==> s.timeout.delay is None && s.timeout.timer is None,
    {
        match sys_udp_v6() {
            Ok(inner) => Ok(UdpSocket::new(inner)),
            Err(e) => Err(e),
        }
    }

    /// A non-blocking UDP socket bound to the given address.
    pub fn bind(addr: &str) -> (r: Result<UdpSocket, std::io::Error>)
        ensures
            r matches Ok(s) ==> s.timeout.delay is None && s.timeout.timer is None,
    {
        match sys_udp_bind(addr) {
            Ok(inner) => Ok(UdpSocket::new(inner)),
            Err(e) => Err(e),
        }
    }

    /// Another handle to the same socket, with fresh timeout
    /// bookkeeping.
    pub fn try_clone(&self) -> (r: Result<UdpSocket, std::io::Error>)
        ensures
            r matches Ok(s) ==> s.inner == self.inner && s.timeout.delay is None
                && s.timeout.timer is None,
    {
        Ok(UdpSocket { inner: self.inner.duplicate(), timeout: IoTimeout::new() })
    }

    /// The local address this socket is bound to, as text.
    pub fn local_addr(&self) -> (r: Result<String, std::io::Error>) {
        sys_udp_local_addr(&self.inner)
    }

    /// One turn of the send template: attempt a non-blocking send of
    /// `buf` to `target`; success returns how many bytes the kernel
    /// accepted (at most the buffer's length), a would-block answer
    /// asks the caller to park on writability and retry, any other
    /// error propagates.
    pub fn send_to(&self, buf: &[u8], target: &str) -> (r: IoAction<usize>)
        ensures
            (r matches IoAction::Return(n) ==> n <= buf@.len()),
            (r matches IoAction::Park(i) ==> i == IoInterest::Writable),
    {
        retry_decision(sys_udp_send_to(&self.inner, buf, target), IoInterest::Writable)
    }

    /// One turn of the receive template: attempt a non-blocking
    /// receive into `buf`; success returns the byte count (at most the
    /// buffer's length) and the peer address as text, a would-block
    /// answer asks the caller to park on readability and retry, any
    /// other error propagates.
    pub fn recv_from(&self, buf: &mut Vec<u8>) -> (r: IoAction<(usize, String)>)
        ensures
            (r matches IoAction::Return(p) ==> p.0 <= old(buf)@.len()),
            (r matches IoAction::Park(i) ==> i == IoInterest::Readable),
            final(buf)@.len() == old(buf)@.len(),
    {
        retry_decision(sys_udp_recv_from(&self.inner, buf), IoInterest::Readable)
    }
}

impl Io for UdpSocket {
    open spec fn timeout_spec(&self) -> Option<u64> {
        self.timeout.delay
    }

    open spec fn saved_timer_spec(&self) -> Option<u64> {
        self.timeout.timer
    }

    fn set_timeout(&mut self, timeout: Option<u64>) {
        self.timeout.delay = timeout;
    }

    fn timeout(&self) -> (r: Option<u64>) {
        self.timeout.delay
    }

    fn save_timeout(&mut self, token: u64) {
        self.timeout.timer = Some(token);
    }

    fn take_timeout(&mut self) -> (r: Option<u64>) {
        let t = self.timeout.timer;
        self.timeout.timer = None;
        t
    }
}

} // verus!
