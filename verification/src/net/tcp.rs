//! TCP: non-blocking listener and stream adapters.
//!
//! The listener and stream carry no timeout bookkeeping; their
//! operations follow the uniform retry template, with the non-blocking
//! attempt behind a trusted wrapper and the decision verified.

use vstd::prelude::*;
use std::io::{Read, Write};
use std::sync::Arc;
use crate::net::{IoAttempt, IoAction, IoInterest, retry_decision};

verus! {

/// The underlying event-library listener, shared by clones; opaque to
/// verification, accessed only by the trusted wrappers below.
#[verifier::external_body]
pub struct TcpListenerInner {
    inner: Arc<mio::net::TcpListener>,
}

impl TcpListenerInner {
    /// Relies on Arc::clone: another handle to the same listener.
    #[verifier::external_body]
    fn duplicate(&self) -> (r: TcpListenerInner)
        ensures
            r == *self,
    {
        TcpListenerInner { inner: self.inner.clone() }
    }
}

/// The underlying event-library stream, shared by clones; opaque to
/// verification, accessed only by the trusted wrappers below.
#[verifier::external_body]
pub struct TcpStreamInner {
    inner: Arc<mio::net::TcpStream>,
}

impl TcpStreamInner {
    /// Relies on Arc::clone: another handle to the same stream.
    #[verifier::external_body]
    fn duplicate(&self) -> (r: TcpStreamInner)
        ensures
            r == *self,
    {
        TcpStreamInner { inner: self.inner.clone() }
    }
}

/// Relies on mio::net::TcpListener::bind: a non-blocking listener
/// bound to the given address; a malformed address is an invalid-input
/// error.
#[verifier::external_body]
fn sys_tcp_bind(addr: &str) -> (r: Result<TcpListenerInner, std::io::Error>) {
    match addr.parse() {
        Ok(a) => match mio::net::TcpListener::bind(a) {
            Ok(l) => Ok(TcpListenerInner { inner: Arc::new(l) }),
            Err(e) => Err(e),
        },
        Err(_) => Err(
            std::io::Error::new(std::io::ErrorKind::InvalidInput, "invalid socket address"),
        ),
    }
}

/// Relies on mio::net::TcpListener::accept: one non-blocking accept.
#[verifier::external_body]
fn sys_tcp_accept(l: &TcpListenerInner) -> (r: IoAttempt<TcpStreamInner>) {
    match l.inner.accept() {
        Ok((s, _)) => IoAttempt::Done(TcpStreamInner { inner: Arc::new(s) }),
        Err(e) if e.kind() == std::io::ErrorKind::WouldBlock => IoAttempt::WouldBlock,
        Err(e) => IoAttempt::Fail(e),
    }
}

/// Relies on mio::net::TcpStream::connect: starts a non-blocking
/// connection; completion is observed through writability.
#[verifier::external_body]
fn sys_tcp_connect(addr: &str) -> (r: Result<TcpStreamInner, std::io::Error>) {
    match addr.parse() {
        Ok(a) => match mio::net::TcpStream::connect(a) {
            Ok(s) => Ok(TcpStreamInner { inner: Arc::new(s) }),
            Err(e) => Err(e),
        },
        Err(_) => Err(
            std::io::Error::new(std::io::ErrorKind::InvalidInput, "invalid socket address"),
        ),
    }
}

/// Relies on mio::net::TcpStream's Read impl: one non-blocking read;
/// on success at most the buffer's bytes were filled and the buffer
/// keeps its length.
#[verifier::external_body]
fn sys_tcp_read(s: &TcpStreamInner, buf: &mut Vec<u8>) -> (r: IoAttempt<usize>)
    ensures
        r matches IoAttempt::Done(n) ==> n <= old(buf)@.len(),
        final(buf)@.len() == old(buf)@.len(),
{
    match (&*s.inner).read(buf.as_mut_slice()) {
        Ok(n) => IoAttempt::Done(n),
        Err(e) if e.kind() == std::io::ErrorKind::WouldBlock => IoAttempt::WouldBlock,
        Err(e) if e.kind() == std::io::ErrorKind::NotConnected => IoAttempt::NotConnected,
        Err(e) => IoAttempt::Fail(e),
    }
}

/// Relies on mio::net::TcpStream's Write impl: one non-blocking write;
/// on success the kernel accepted at most the buffer's bytes.
#[verifier::external_body]
fn sys_tcp_write(s: &TcpStreamInner, buf: &[u8]) -> (r: IoAttempt<usize>)
    ensures
        r matches IoAttempt::Done(n) ==> n <= buf@.len(),
{
    match (&*s.inner).write(buf) {
        Ok(n) => IoAttempt::Done(n),
        Err(e) if e.kind() == std::io::ErrorKind::WouldBlock => IoAttempt::WouldBlock,
        Err(e) if e.kind() == std::io::ErrorKind::NotConnected => IoAttempt::NotConnected,
        Err(e) => IoAttempt::Fail(e),
    }
}

/// Relies on mio::net::TcpStream's Write impl: one flush attempt.
#[verifier::external_body]
fn sys_tcp_flush(s: &TcpStreamInner) -> (r: IoAttempt<()>) {
    match (&*s.inner).flush() {
        Ok(()) => IoAttempt::Done(()),
        Err(e) if e.kind() == std::io::ErrorKind::WouldBlock => IoAttempt::WouldBlock,
        Err(e) => IoAttempt::Fail(e),
    }
}

/// Relies on mio::net::TcpStream::peer_addr, rendered as text.
#[verifier::external_body]
fn sys_tcp_peer_addr(s: &TcpStreamInner) -> (r: Result<String, std::io::Error>) {
    match s.inner.peer_addr() {
        Ok(a) => Ok(format!("{}", a)),
        Err(e) => Err(e),
    }
}

/// Relies on mio::net::TcpStream::local_addr, rendered as text.
#[verifier::external_body]
fn sys_tcp_local_addr(s: &TcpStreamInner) -> (r: Result<String, std::io::Error>) {
    match s.inner.local_addr() {
        Ok(a) => Ok(format!("{}", a)),
        Err(e) => Err(e),
    }
}

/// Relies on mio::net::TcpListener::local_addr, rendered as text.
#[verifier::external_body]
fn sys_tcp_listener_addr(l: &TcpListenerInner) -> (r: Result<String, std::io::Error>) {
    match l.inner.local_addr() {
        Ok(a) => Ok(format!("{}", a)),
        Err(e) => Err(e),
    }
}

/// Which direction of a stream to shut down.
#[derive(Clone, Copy, PartialEq, Eq, Structural, Debug)]
pub enum Shutdown {
    /// Further receptions will be disallowed.
    Read,
    /// Further transmissions will be disallowed.
    Write,
    /// Further receptions and transmissions will be disallowed.
    Both,
}

/// A non-blocking TCP listener.
pub struct TcpListener {
    pub inner: TcpListenerInner,
}

impl TcpListener {
    /// A non-blocking listener bound to the given address.
    pub fn bind(addr: &str) -> (r: Result<TcpListener, std::io::Error>) {
        match sys_tcp_bind(addr) {
            Ok(inner) => Ok(TcpListener { inner }),
            Err(e) => Err(e),
        }
    }

    /// One turn of the accept template: a connection, a request to
    /// park on readability and retry, or an error.
    pub fn accept(&self) -> (r: IoAction<TcpStream>)
        ensures
            r matches IoAction::Park(i) ==> i == IoInterest::Readable,
    {
        match retry_decision(sys_tcp_accept(&self.inner), IoInterest::Readable) {
            IoAction::Return(s) => IoAction::Return(TcpStream { inner: s }),
            IoAction::Park(i) => IoAction::Park(i),
            IoAction::Error(e) => IoAction::Error(e),
        }
    }

    /// Another handle to the same listener.
    pub fn try_clone(&self) -> (r: Result<TcpListener, std::io::Error>)
        ensures
            r matches Ok(l) ==> l.inner == self.inner,
    {
        Ok(TcpListener { inner: self.inner.duplicate() })
    }

    /// The address this listener is bound to, as text.
    pub fn local_addr(&self) -> (r: Result<String, std::io::Error>) {
        sys_tcp_listener_addr(&self.inner)
    }

    /// An iterator-shaped view of `accept`: each `next` is one accept
    /// turn.
    pub fn incoming<'a>(&'a self) -> (r: Incoming<'a>) {
        Incoming { listener: self }
    }
}

/// Repeated accepts on a borrowed listener; each `next` is one turn of
/// the accept template.
pub struct Incoming<'a> {
    pub listener: &'a TcpListener,
}

impl<'a> Incoming<'a> {
    /// One accept turn; never exhausted.
    pub fn next(&mut self) -> (r: Option<IoAction<TcpStream>>)
        ensures
            r is Some,
    {
        Some(self.listener.accept())
    }
}

/// A non-blocking TCP stream.
pub struct TcpStream {
    pub inner: TcpStreamInner,
}

impl TcpStream {
    /// Start a non-blocking connection to the given address; the
    /// stream becomes writable when the connection completes.
    pub fn connect(addr: &str) -> (r: Result<TcpStream, std::io::Error>) {
        match sys_tcp_connect(addr) {
            Ok(inner) => Ok(TcpStream { inner }),
            Err(e) => Err(e),
        }
    }

    /// The peer's address, as text.
    pub fn peer_addr(&self) -> (r: Result<String, std::io::Error>) {
        sys_tcp_peer_addr(&self.inner)
    }

    /// The local address, as text.
    pub fn local_addr(&self) -> (r: Result<String, std::io::Error>) {
        sys_tcp_local_addr(&self.inner)
    }

    /// Another handle to the same stream.
    pub fn try_clone(&self) -> (r: Result<TcpStream, std::io::Error>)
        ensures
            r matches Ok(s) ==> s.inner == self.inner,
    {
        Ok(TcpStream { inner: self.inner.duplicate() })
    }

    /// One turn of the read template: bytes read (at most the buffer's
    /// length), a request to park on readability, or an error.
    pub fn read(&self, buf: &mut Vec<u8>) -> (r: IoAction<usize>)
        ensures
            (r matches IoAction::Return(n) ==> n <= old(buf)@.len()),
            (r matches IoAction::Park(i) ==> i == IoInterest::Readable),
            final(buf)@.len() == old(buf)@.len(),
    {
        retry_decision(sys_tcp_read(&self.inner, buf), IoInterest::Readable)
    }

    /// One turn of the write template: bytes accepted (at most the
    /// buffer's length), a request to park on writability, or an
    /// error.
    pub fn write(&self, buf: &[u8]) -> (r: IoAction<usize>)
        ensures
            (r matches IoAction::Return(n) ==> n <= buf@.len()),
            (r matches IoAction::Park(i) ==> i == IoInterest::Writable),
    {
        retry_decision(sys_tcp_write(&self.inner, buf), IoInterest::Writable)
    }

    /// One turn of the flush template.
    pub fn flush(&self) -> (r: IoAction<()>)
        ensures
            r matches IoAction::Park(i) ==> i == IoInterest::Writable,
    {
        retry_decision(sys_tcp_flush(&self.inner), IoInterest::Writable)
    }
}

} // verus!
