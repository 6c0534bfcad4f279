//! Connection lifecycle and the decisions of the background loops.
//!
//! A `Serial` owns the connection's configuration and its liveness flag; the
//! caller owns the device handle, the channels and the threads or tasks, and
//! consults the functions here each loop iteration: the liveness check comes
//! first and decides whether any I/O is attempted at all, then the outcome of
//! the read or the channel poll is dispatched to the next action.

use crate::errors::SpError;
use vstd::prelude::*;

verus! {

/// Declares `std::sync::PoisonError` so poisoned-lock results can flow
/// through verified code; the value itself stays opaque.
#[verifier::external_type_specification]
#[verifier::external_body]
#[verifier::reject_recursive_types(T)]
pub struct ExPoisonError<T>(std::sync::PoisonError<T>);

/// Maps the result of a lock acquisition to the bridge's own error kind: a
/// poisoned lock is unrecoverable for the handle and surfaces as
/// `LockFailure`.
pub fn rw_error_handler<T>(result: Result<T, std::sync::PoisonError<T>>) -> (r: Result<
    T,
    SpError,
>)
    ensures
        result matches Ok(t) ==> (r matches Ok(v) && v == t),
        result is Err ==> (r matches Err(e) && e == SpError::LockFailure),
{
    match result {
        Ok(t) => Ok(t),
        Err(_) => Err(SpError::LockFailure),
    }
}

/// A serial connection handle: the immutable configuration, the liveness
/// flag, and whether a device handle has been attached by the caller.
///
/// The liveness flag written here is the owner's copy, the single writer of
/// the shared flag the caller mirrors it into for the background loops.
#[derive(Debug)]
pub struct Serial {
    /// Device path the connection was configured with.
    pub path: String,
    /// Configured baud rate.
    pub baud_rate: u32,
    /// Bounded-read timeout, in milliseconds.
    pub timeout_millis: u64,
    /// Capacity of the channels and of the read scratch buffer.
    pub buffer_size: usize,
    /// Whether the caller has attached an open device handle.
    pub port_open: bool,
    /// The liveness flag: true from a successful connect until disconnect.
    pub connected: bool,
}

/// The handle after its liveness flag is cleared; nothing else changes.
pub open spec fn spec_disconnect(s: Serial) -> Serial {
    Serial { connected: false, ..s }
}

impl Serial {
    /// Whether a one-shot or loop write may reach the device.
    pub open spec fn can_send(self) -> bool {
        self.connected && self.port_open
    }

    /// A handle configured for the given device, not yet connected: the
    /// read timeout defaults to 100 milliseconds and the buffer size to
    /// 2048.
    pub fn new(path: &str, baud_rate: u32) -> (r: Serial)
        ensures
            r.path@ == path@,
            r.baud_rate == baud_rate,
            r.timeout_millis == 100,
            r.buffer_size == 2048,
            !r.port_open,
            !r.connected,
    {
        Serial {
            path: path.to_owned(),
            baud_rate,
            timeout_millis: 100,
            buffer_size: 2048,
            port_open: false,
            connected: false,
        }
    }

    /// Reconfigures the channel and scratch-buffer capacity.
    pub fn set_buffer_size(&mut self, buffer_size: usize)
        ensures
            *final(self) == (Serial { buffer_size, ..*old(self) }),
    {
        self.buffer_size = buffer_size;
    }

    /// Records the outcome of the caller's attempt to open the device: on
    /// success the handle holds an open port and its liveness flag is set;
    /// on failure the attempt surfaces as `OpenFailed`.
    pub fn connect(self, open_ok: bool) -> (r: Result<Serial, SpError>)
        ensures
            open_ok ==> r == Ok::<Serial, SpError>(
                Serial { port_open: true, connected: true, ..self },
            ),
            !open_ok ==> r == Err::<Serial, SpError>(SpError::OpenFailed),
    {
        if open_ok {
            Ok(Serial { port_open: true, connected: true, ..self })
        } else {
            Err(SpError::OpenFailed)
        }
    }

    /// Clears the liveness flag; idempotent. The device handle is not
    /// touched: the background loops observe the flag and stop using it.
    pub fn disconnect(&mut self)
        ensures
            *final(self) == spec_disconnect(*old(self)),
    {
        self.connected = false;
    }

    /// Reads the liveness flag.
    pub fn is_connected(&self) -> (r: bool)
        ensures
            r == self.connected,
    {
        self.connected
    }

    /// The capacity the background loops must size their channel and
    /// scratch buffer with, available only while the handle is connected
    /// and holds an open device.
    fn get_port_info(&self) -> (r: Result<usize, SpError>)
        ensures
            self.can_send() ==> r == Ok::<usize, SpError>(self.buffer_size),
            !self.can_send() ==> r == Err::<usize, SpError>(SpError::NotConnected),
    {
        if !self.is_connected() {
            return Err(SpError::NotConnected);
        }
        if !self.port_open {
            return Err(SpError::NotConnected);
        }
        Ok(self.buffer_size)
    }

    /// A one-shot send bypassing the writer loop: yields the bytes the
    /// caller must write to the device, or `NotConnected` when the handle
    /// cannot reach one.
    pub fn send_once(&self, msg: Vec<u8>) -> (r: Result<Vec<u8>, SpError>)
        ensures
            self.can_send() ==> (r matches Ok(m) && m@ == msg@),
            !self.can_send() ==> r == Err::<Vec<u8>, SpError>(SpError::NotConnected),
    {
        match self.get_port_info() {
            Ok(_) => Ok(msg),
            Err(e) => Err(e),
        }
    }
}

/// The two states of a background loop. A terminated loop cannot be
/// resumed: a new connect is required.
#[derive(Clone, Copy, Debug, PartialEq, Eq, Structural)]
pub enum LoopState {
    Running,
    Terminated,
}

/// The state a loop is in after its liveness check: it keeps running
/// exactly when it was running and the flag still holds.
pub open spec fn spec_loop_poll(state: LoopState, connected: bool) -> LoopState {
    if state is Running && connected {
        LoopState::Running
    } else {
        LoopState::Terminated
    }
}

/// The liveness check that opens every loop iteration, before any I/O is
/// attempted. Only a running loop that still sees the flag goes on to read
/// or write.
pub fn loop_poll(state: LoopState, connected: bool) -> (r: LoopState)
    ensures
        r == spec_loop_poll(state, connected),
        r is Running <==> (state is Running && connected),
{
    match state {
        LoopState::Running => if connected {
            LoopState::Running
        } else {
            LoopState::Terminated
        },
        LoopState::Terminated => LoopState::Terminated,
    }
}

/// What a bounded-duration device read came back with: `Data` carries the
/// scratch buffer and how many of its leading bytes were filled.
pub enum ReadEvent {
    Data(Vec<u8>, usize),
    Timeout,
    Failure,
}

/// What the reader loop does next: forward a copy of the bytes that were
/// read, pause briefly before retrying, or retry at once.
pub enum ReaderAction {
    Forward(Vec<u8>),
    Pause,
    Skip,
}

/// Dispatches one read outcome inside a running reader loop: data is
/// forwarded as a copy of the first `n` bytes, a timeout is expected and
/// only pauses the loop, and any other I/O error is retried. No outcome
/// terminates the loop; only the liveness check does.
pub fn reader_dispatch(event: ReadEvent) -> (a: ReaderAction)
    ensures
        event matches ReadEvent::Data(buf, n) ==> ((0 < n <= buf@.len() ==> (a
            matches ReaderAction::Forward(c) && c@ == buf@.take(n as int))) && ((n == 0 || n
            > buf@.len()) ==> a is Skip)),
        event is Timeout ==> a is Pause,
        event is Failure ==> a is Skip,
{
    match event {
        ReadEvent::Data(buf, n) => {
            if n == 0 || n > buf.len() {
                return ReaderAction::Skip;
            }
            let mut chunk: Vec<u8> = Vec::new();
            let mut i: usize = 0;
            while i < n
                invariant
                    i <= n <= buf@.len(),
                    chunk@ == buf@.take(i as int),
                decreases n - i,
            {
                chunk.push(buf[i]);
                proof {
                    assert(buf@.take(i + 1) =~= buf@.take(i as int).push(buf@[i as int]));
                }
                i += 1;
            }
            ReaderAction::Forward(chunk)
        },
        ReadEvent::Timeout => ReaderAction::Pause,
        ReadEvent::Failure => ReaderAction::Skip,
    }
}

/// What a non-blocking poll of the outbound channel came back with.
pub enum WriteEvent {
    Message(Vec<u8>),
    Empty,
    Closed,
}

/// What the writer loop does next: write a message to the device, pause
/// before polling again, or stop because every sender is gone.
pub enum WriterAction {
    Write(Vec<u8>),
    Pause,
    Stop,
}

/// Dispatches one channel poll inside a running writer loop: a message is
/// written to the device, an empty channel pauses the loop, and a closed
/// channel is the one terminal condition besides the liveness flag.
pub fn writer_dispatch(event: WriteEvent) -> (a: WriterAction)
    ensures
        event matches WriteEvent::Message(m) ==> (a matches WriterAction::Write(w) && w@
            == m@),
        event is Empty ==> a is Pause,
        event is Closed ==> a is Stop,
{
    match event {
        WriteEvent::Message(m) => WriterAction::Write(m),
        WriteEvent::Empty => WriterAction::Pause,
        WriteEvent::Closed => WriterAction::Stop,
    }
}

/// A loop that has observed the liveness flag go false terminates at that
/// very check, before attempting any further read or write, and a
/// terminated loop never re-enters the running state.
pub proof fn lemma_liveness_false_terminates(state: LoopState, connected: bool)
    ensures
        !connected ==> spec_loop_poll(state, connected) is Terminated,
        spec_loop_poll(LoopState::Terminated, connected) is Terminated,
{
}

/// After a disconnect the handle refuses one-shot sends: its liveness flag
/// reads false and nothing may reach the device any more.
pub proof fn lemma_disconnect_blocks_send(s: Serial)
    ensures
        !spec_disconnect(s).connected,
        !spec_disconnect(s).can_send(),
{
}

} // verus!
