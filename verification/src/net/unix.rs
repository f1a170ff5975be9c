//! Unix domain sockets and pipes: non-blocking adapters with
//! per-operation timeout bookkeeping.

use vstd::prelude::*;
use std::io::{Read, Write};
use std::sync::Arc;
use crate::io::Io;
use crate::net::{IoAttempt, IoAction, IoInterest, IoTimeout, retry_decision};

verus! {

/// The underlying event-library stream, shared by clones; opaque to
/// verification, accessed only by the trusted wrappers below.
#[verifier::external_body]
pub struct UnixStreamInner {
    inner: Arc<mio::net::UnixStream>,
}

impl UnixStreamInner {
    /// Relies on Arc::clone: another handle to the same stream.
    #[verifier::external_body]
    fn duplicate(&self) -> (r: UnixStreamInner)
        ensures
            r == *self,
    {
        UnixStreamInner { inner: self.inner.clone() }
    }
}

/// The underlying event-library listener, shared by clones; opaque to
/// verification.
#[verifier::external_body]
pub struct UnixListenerInner {
    inner: Arc<mio::net::UnixListener>,
}

impl UnixListenerInner {
    /// Relies on Arc::clone: another handle to the same listener.
    #[verifier::external_body]
    fn duplicate(&self) -> (r: UnixListenerInner)
        ensures
            r == *self,
    {
        UnixListenerInner { inner: self.inner.clone() }
    }
}

/// The receiving end of an event-library pipe; opaque to verification.
#[verifier::external_body]
pub struct PipeReaderInner {
    inner: mio::unix::pipe::Receiver,
}

/// The sending end of an event-library pipe; opaque to verification.
#[verifier::external_body]
pub struct PipeWriterInner {
    inner: mio::unix::pipe::Sender,
}

/// Relies on mio::net::UnixStream::connect: starts a non-blocking
/// connection to the socket at the given path.
#[verifier::external_body]
fn sys_unix_connect(path: &str) -> (r: Result<UnixStreamInner, std::io::Error>) {
    match mio::net::UnixStream::connect(path) {
        Ok(s) => Ok(UnixStreamInner { inner: Arc::new(s) }),
        Err(e) => Err(e),
    }
}

/// Relies on mio::net::UnixListener::bind: a non-blocking listener on
/// the socket at the given path.
#[verifier::external_body]
fn sys_unix_listen(path: &str) -> (r: Result<UnixListenerInner, std::io::Error>) {
    match mio::net::UnixListener::bind(path) {
        Ok(l) => Ok(UnixListenerInner { inner: Arc::new(l) }),
        Err(e) => Err(e),
    }
}

/// Relies on std::io::Error::new: the error returned for an operation
/// on a socket that was never bound to a path.
#[verifier::external_body]
fn err_not_bound() -> (r: std::io::Error) {
    std::io::Error::new(std::io::ErrorKind::InvalidInput, "socket is not bound to a path")
}

/// Relies on mio::net::UnixListener::accept: one non-blocking accept.
#[verifier::external_body]
fn sys_unix_accept(l: &UnixListenerInner) -> (r: IoAttempt<UnixStreamInner>) {
    match l.inner.accept() {
        Ok((s, _)) => IoAttempt::Done(UnixStreamInner { inner: Arc::new(s) }),
        Err(e) if e.kind() == std::io::ErrorKind::WouldBlock => IoAttempt::WouldBlock,
        Err(e) => IoAttempt::Fail(e),
    }
}

/// Relies on mio::net::UnixStream's Read impl: one non-blocking read;
/// on success at most the buffer's bytes were filled and the buffer
/// keeps its length.
#[verifier::external_body]
fn sys_unix_read(s: &UnixStreamInner, buf: &mut Vec<u8>) -> (r: IoAttempt<usize>)
    ensures
        r matches IoAttempt::Done(n) ==> n <= old(buf)@.len(),
        final(buf)@.len() == old(buf)@.len(),
{
    match (&*s.inner).read(buf.as_mut_slice()) {
        Ok(n) => IoAttempt::Done(n),
        Err(e) if e.kind() == std::io::ErrorKind::WouldBlock => IoAttempt::WouldBlock,
        Err(e) if e.kind() == std::io::ErrorKind::NotConnected => IoAttempt::NotConnected,
        Err(e) => IoAttempt::Fail(e),
    }
}

/// Relies on mio::net::UnixStream's Write impl: one non-blocking
/// write; on success the kernel accepted at most the buffer's bytes.
#[verifier::external_body]
fn sys_unix_write(s: &UnixStreamInner, buf: &[u8]) -> (r: IoAttempt<usize>)
    ensures
        r matches IoAttempt::Done(n) ==> n <= buf@.len(),
{
    match (&*s.inner).write(buf) {
        Ok(n) => IoAttempt::Done(n),
        Err(e) if e.kind() == std::io::ErrorKind::WouldBlock => IoAttempt::WouldBlock,
        Err(e) if e.kind() == std::io::ErrorKind::NotConnected => IoAttempt::NotConnected,
        Err(e) => IoAttempt::Fail(e),
    }
}

/// Relies on mio::net::UnixStream's Write impl: one flush attempt.
#[verifier::external_body]
fn sys_unix_flush(s: &UnixStreamInner) -> (r: IoAttempt<()>) {
    match (&*s.inner).flush() {
        Ok(()) => IoAttempt::Done(()),
        Err(e) if e.kind() == std::io::ErrorKind::WouldBlock => IoAttempt::WouldBlock,
        Err(e) => IoAttempt::Fail(e),
    }
}

/// Relies on mio::unix::pipe::new: a fresh non-blocking pipe pair.
#[verifier::external_body]
fn sys_pipe() -> (r: Result<(PipeReaderInner, PipeWriterInner), std::io::Error>) {
    match mio::unix::pipe::new() {
        Ok((w, rd)) => Ok((PipeReaderInner { inner: rd }, PipeWriterInner { inner: w })),
        Err(e) => Err(e),
    }
}

/// Relies on mio::unix::pipe::Receiver's Read impl: one non-blocking
/// read; on success at most the buffer's bytes were filled and the
/// buffer keeps its length.
#[verifier::external_body]
fn sys_pipe_read(p: &mut PipeReaderInner, buf: &mut Vec<u8>) -> (r: IoAttempt<usize>)
    ensures
        r matches IoAttempt::Done(n) ==> n <= old(buf)@.len(),
        final(buf)@.len() == old(buf)@.len(),
{
    match p.inner.read(buf.as_mut_slice()) {
        Ok(n) => IoAttempt::Done(n),
        Err(e) if e.kind() == std::io::ErrorKind::WouldBlock => IoAttempt::WouldBlock,
        Err(e) => IoAttempt::Fail(e),
    }
}

/// Relies on mio::unix::pipe::Sender's Write impl: one non-blocking
/// write; on success the kernel accepted at most the buffer's bytes.
#[verifier::external_body]
fn sys_pipe_write(p: &mut PipeWriterInner, buf: &[u8]) -> (r: IoAttempt<usize>)
    ensures
        r matches IoAttempt::Done(n) ==> n <= buf@.len(),
{
    match p.inner.write(buf) {
        Ok(n) => IoAttempt::Done(n),
        Err(e) if e.kind() == std::io::ErrorKind::WouldBlock => IoAttempt::WouldBlock,
        Err(e) => IoAttempt::Fail(e),
    }
}

/// Relies on mio::unix::pipe::Sender's Write impl: one flush attempt.
#[verifier::external_body]
fn sys_pipe_flush(p: &mut PipeWriterInner) -> (r: IoAttempt<()>) {
    match p.inner.flush() {
        Ok(()) => IoAttempt::Done(()),
        Err(e) if e.kind() == std::io::ErrorKind::WouldBlock => IoAttempt::WouldBlock,
        Err(e) => IoAttempt::Fail(e),
    }
}

/// A Unix domain socket that is not yet listening or connected: it
/// remembers the path it was bound to, and materializes the underlying
/// socket when `listen` or `connect` is called.
pub struct UnixSocket {
    pub path: Option<String>,
    pub timeout: IoTimeout,
}

impl UnixSocket {
    fn new() -> (r: UnixSocket)
        ensures
            r.path is None,
            r.timeout.delay is None,
            r.timeout.timer is None,
    {
        UnixSocket { path: None, timeout: IoTimeout::new() }
    }

    /// A new, unbound stream-mode Unix domain socket.
    pub fn stream() -> (r: Result<UnixSocket, std::io::Error>)
        ensures
            r matches Ok(s) ==> s.path is None && s.timeout.delay is None
                && s.timeout.timer is None,
    {
        Ok(UnixSocket::new())
    }

    /// Bind the socket to the given path; the path takes effect when
    /// the socket starts listening.
    pub fn bind(&mut self, addr: &str) -> (r: Result<(), std::io::Error>)
        ensures
            r is Ok,
            final(self).path matches Some(p) && p@ == addr@,
            final(self).timeout == old(self).timeout,
    {
        self.path = Some(addr.to_string());
        Ok(())
    }

    /// Start listening on the bound path.  Fails with an invalid-input
    /// error exactly when the socket was never bound.  The event
    /// library chooses the backlog.
    pub fn listen(self, _backlog: usize) -> (r: Result<UnixListener, std::io::Error>)
        ensures
            self.path is None ==> r is Err,
    {
        match self.path {
            Some(p) => match sys_unix_listen(p.as_str()) {
                Ok(inner) => Ok(UnixListener { inner, timeout: IoTimeout::new() }),
                Err(e) => Err(e),
            },
            None => Err(err_not_bound()),
        }
    }

    /// Start a non-blocking connection to the socket at `addr`.  The
    /// boolean is whether the connection is already complete; a
    /// non-blocking connect is always still in progress, so it is
    /// `false`, and completion is observed through writability.
    pub fn connect(self, addr: &str) -> (r: Result<(UnixStream, bool), std::io::Error>)
        ensures
            r matches Ok(p) ==> !p.1 && p.0.timeout.delay is None && p.0.timeout.timer is None,
    {
        match sys_unix_connect(addr) {
            Ok(inner) => Ok((UnixStream { inner, timeout: IoTimeout::new() }, false)),
            Err(e) => Err(e),
        }
    }

    /// Another socket with the same bound path and fresh timeout
    /// bookkeeping.
    pub fn try_clone(&self) -> (r: Result<UnixSocket, std::io::Error>)
        ensures
            r matches Ok(s) ==> s.path == self.path && s.timeout.delay is None
                && s.timeout.timer is None,
    {
        let path = match &self.path {
            Some(p) => Some(p.clone()),
            None => None,
        };
        Ok(UnixSocket { path, timeout: IoTimeout::new() })
    }
}

impl Io for UnixSocket {
    open spec fn timeout_spec(&self) -> Option<u64> {
        self.timeout.delay
    }

    open spec fn saved_timer_spec(&self) -> Option<u64> {
        self.timeout.timer
    }

    fn set_timeout(&mut self, timeout: Option<u64>) {
        self.timeout.delay = timeout;
    }

    fn timeout(&self) -> (r: Option<u64>) {
        self.timeout.delay
    }

    fn save_timeout(&mut self, token: u64) {
        self.timeout.timer = Some(token);
    }

    fn take_timeout(&mut self) -> (r: Option<u64>) {
        let t = self.timeout.timer;
        self.timeout.timer = None;
        t
    }
}

/// A non-blocking Unix domain stream with timeout bookkeeping.
pub struct UnixStream {
    pub inner: UnixStreamInner,
    pub timeout: IoTimeout,
}

impl UnixStream {
    fn new(inner: UnixStreamInner) -> (r: UnixStream)
        ensures
            r.timeout.delay is None,
            r.timeout.timer is None,
    {
        UnixStream { inner, timeout: IoTimeout::new() }
    }

    /// Start a non-blocking connection to the socket at `path`.
    pub fn connect(path: &str) -> (r: Result<UnixStream, std::io::Error>)
        ensures
            r matches Ok(s) ==> s.timeout.delay is None && s.timeout.timer is None,
    {
        match sys_unix_connect(path) {
            Ok(inner) => Ok(UnixStream::new(inner)),
            Err(e) => Err(e),
        }
    }

    /// Another handle to the same stream, with fresh timeout
    /// bookkeeping.
    pub fn try_clone(&self) -> (r: Result<UnixStream, std::io::Error>)
        ensures
            r matches Ok(s) ==> s.inner == self.inner && s.timeout.delay is None
                && s.timeout.timer is None,
    {
        Ok(UnixStream { inner: self.inner.duplicate(), timeout: IoTimeout::new() })
    }

    /// One turn of the read template.
    pub fn read(&self, buf: &mut Vec<u8>) -> (r: IoAction<usize>)
        ensures
            (r matches IoAction::Return(n) ==> n <= old(buf)@.len()),
            (r matches IoAction::Park(i) ==> i == IoInterest::Readable),
            final(buf)@.len() == old(buf)@.len(),
    {
        retry_decision(sys_unix_read(&self.inner, buf), IoInterest::Readable)
    }

    /// One turn of the write template.
    pub fn write(&self, buf: &[u8]) -> (r: IoAction<usize>)
        ensures
            (r matches IoAction::Return(n) ==> n <= buf@.len()),
            (r matches IoAction::Park(i) ==> i == IoInterest::Writable),
    {
        retry_decision(sys_unix_write(&self.inner, buf), IoInterest::Writable)
    }

    /// One turn of the flush template.
    pub fn flush(&self) -> (r: IoAction<()>)
        ensures
            r matches IoAction::Park(i) ==> i == IoInterest::Writable,
    {
        retry_decision(sys_unix_flush(&self.inner), IoInterest::Writable)
    }
}

impl Io for UnixStream {
    open spec fn timeout_spec(&self) -> Option<u64> {
        self.timeout.delay
    }

    open spec fn saved_timer_spec(&self) -> Option<u64> {
        self.timeout.timer
    }

    fn set_timeout(&mut self, timeout: Option<u64>) {
        self.timeout.delay = timeout;
    }

    fn timeout(&self) -> (r: Option<u64>) {
        self.timeout.delay
    }

    fn save_timeout(&mut self, token: u64) {
        self.timeout.timer = Some(token);
    }

    fn take_timeout(&mut self) -> (r: Option<u64>) {
        let t = self.timeout.timer;
        self.timeout.timer = None;
        t
    }
}

/// A non-blocking Unix domain listener with timeout bookkeeping.
pub struct UnixListener {
    pub inner: UnixListenerInner,
    pub timeout: IoTimeout,
}

impl UnixListener {
    fn new(inner: UnixListenerInner) -> (r: UnixListener)
        ensures
            r.timeout.delay is None,
            r.timeout.timer is None,
    {
        UnixListener { inner, timeout: IoTimeout::new() }
    }

    /// A non-blocking listener on the socket at `path`.
    pub fn bind(path: &str) -> (r: Result<UnixListener, std::io::Error>)
        ensures
            r matches Ok(l) ==> l.timeout.delay is None && l.timeout.timer is None,
    {
        match sys_unix_listen(path) {
            Ok(inner) => Ok(UnixListener::new(inner)),
            Err(e) => Err(e),
        }
    }

    /// One turn of the accept template.
    pub fn accept(&self) -> (r: IoAction<UnixStream>)
        ensures
            r matches IoAction::Park(i) ==> i == IoInterest::Readable,
    {
        match retry_decision(sys_unix_accept(&self.inner), IoInterest::Readable) {
            IoAction::Return(s) => IoAction::Return(UnixStream::new(s)),
            IoAction::Park(i) => IoAction::Park(i),
            IoAction::Error(e) => IoAction::Error(e),
        }
    }

    /// Another handle to the same listener, with fresh timeout
    /// bookkeeping.
    pub fn try_clone(&self) -> (r: Result<UnixListener, std::io::Error>)
        ensures
            r matches Ok(l) ==> l.inner == self.inner && l.timeout.delay is None
                && l.timeout.timer is None,
    {
        Ok(UnixListener { inner: self.inner.duplicate(), timeout: IoTimeout::new() })
    }
}

impl Io for UnixListener {
    open spec fn timeout_spec(&self) -> Option<u64> {
        self.timeout.delay
    }

    open spec fn saved_timer_spec(&self) -> Option<u64> {
        self.timeout.timer
    }

    fn set_timeout(&mut self, timeout: Option<u64>) {
        self.timeout.delay = timeout;
    }

    fn timeout(&self) -> (r: Option<u64>) {
        self.timeout.delay
    }

    fn save_timeout(&mut self, token: u64) {
        self.timeout.timer = Some(token);
    }

    fn take_timeout(&mut self) -> (r: Option<u64>) {
        let t = self.timeout.timer;
        self.timeout.timer = None;
        t
    }
}

/// A fresh non-blocking pipe: the reading end and the writing end.
pub fn pipe() -> (r: Result<(PipeReader, PipeWriter), std::io::Error>)
    ensures
        r matches Ok(p) ==> p.0.timeout.delay is None && p.0.timeout.timer is None
            && p.1.timeout.delay is None && p.1.timeout.timer is None,
{
    match sys_pipe() {
        Ok((rd, w)) => Ok(
            (
                PipeReader { inner: rd, timeout: IoTimeout::new() },
                PipeWriter { inner: w, timeout: IoTimeout::new() },
            ),
        ),
        Err(e) => Err(e),
    }
}

/// The reading end of a non-blocking pipe, with timeout bookkeeping.
pub struct PipeReader {
    pub inner: PipeReaderInner,
    pub timeout: IoTimeout,
}

impl PipeReader {
    fn new(inner: PipeReaderInner) -> (r: PipeReader)
        ensures
            r.timeout.delay is None,
            r.timeout.timer is None,
    {
        PipeReader { inner, timeout: IoTimeout::new() }
    }

    /// One turn of the read template.
    pub fn read(&mut self, buf: &mut Vec<u8>) -> (r: IoAction<usize>)
        ensures
            (r matches IoAction::Return(n) ==> n <= old(buf)@.len()),
            (r matches IoAction::Park(i) ==> i == IoInterest::Readable),
            final(buf)@.len() == old(buf)@.len(),
            final(self).timeout == old(self).timeout,
    {
        retry_decision(sys_pipe_read(&mut self.inner, buf), IoInterest::Readable)
    }
}

impl Io for PipeReader {
    open spec fn timeout_spec(&self) -> Option<u64> {
        self.timeout.delay
    }

    open spec fn saved_timer_spec(&self) -> Option<u64> {
        self.timeout.timer
    }

    fn set_timeout(&mut self, timeout: Option<u64>) {
        self.timeout.delay = timeout;
    }

    fn timeout(&self) -> (r: Option<u64>) {
        self.timeout.delay
    }

    fn save_timeout(&mut self, token: u64) {
        self.timeout.timer = Some(token);
    }

    fn take_timeout(&mut self) -> (r: Option<u64>) {
        let t = self.timeout.timer;
        self.timeout.timer = None;
        t
    }
}

/// The writing end of a non-blocking pipe, with timeout bookkeeping.
pub struct PipeWriter {
    pub inner: PipeWriterInner,
    pub timeout: IoTimeout,
}

impl PipeWriter {
    fn new(inner: PipeWriterInner) -> (r: PipeWriter)
        ensures
            r.timeout.delay is None,
            r.timeout.timer is None,
    {
        PipeWriter { inner, timeout: IoTimeout::new() }
    }

    /// One turn of the write template.
    pub fn write(&mut self, buf: &[u8]) -> (r: IoAction<usize>)
        ensures
            (r matches IoAction::Return(n) ==> n <= buf@.len()),
            (r matches IoAction::Park(i) ==> i == IoInterest::Writable),
            final(self).timeout == old(self).timeout,
    {
        retry_decision(sys_pipe_write(&mut self.inner, buf), IoInterest::Writable)
    }

    /// One turn of the flush template.
    pub fn flush(&mut self) -> (r: IoAction<()>)
        ensures
            (r matches IoAction::Park(i) ==> i == IoInterest::Writable),
            final(self).timeout == old(self).timeout,
    {
        retry_decision(sys_pipe_flush(&mut self.inner), IoInterest::Writable)
    }
}

impl Io for PipeWriter {
    open spec fn timeout_spec(&self) -> Option<u64> {
        self.timeout.delay
    }

    open spec fn saved_timer_spec(&self) -> Option<u64> {
        self.timeout.timer
    }

    fn set_timeout(&mut self, timeout: Option<u64>) {
        self.timeout.delay = timeout;
    }

    fn timeout(&self) -> (r: Option<u64>) {
        self.timeout.delay
    }

    fn save_timeout(&mut self, token: u64) {
        self.timeout.timer = Some(token);
    }

    fn take_timeout(&mut self) -> (r: Option<u64>) {
        let t = self.timeout.timer;
        self.timeout.timer = None;
        t
    }
}

} // verus!
