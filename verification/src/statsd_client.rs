//! The sending side of one downstream endpoint: the handle through which
//! lines are submitted, the batcher that combines them into chunks, and the
//! sender that writes the chunks and survives connection loss.
//!
//! The submission queue is a bounded `tokio` channel and the shutdown signal
//! a `stream_cancel` tripwire. What is said of them here is assumed from
//! their documentation and source.

use crate::buffer::bytes_mut_of;
use crate::scan::index_of_byte;
use crate::scan::lemma_absent_is_len;
use crate::scan::lemma_first_is_index;
use crate::statsd::StatsdPDU;
use crate::statsd_server::NEWLINE;
use bytes::BytesMut;
use std::sync::Arc;
use stream_cancel::Trigger;
use stream_cancel::Tripwire;
use tokio::sync::mpsc::error::TrySendError;
use tokio::sync::mpsc::Receiver;
use tokio::sync::mpsc::Sender;
use vstd::prelude::*;
use vstd::string::StringExecFns;

verus! {

/// Seconds to wait after a failed connection attempt before the next one.
pub const RECONNECT_DELAY_SECS: u64 = 5;

/// Seconds after which a connection attempt counts as failed.
pub const CONNECT_TIMEOUT_SECS: u64 = 15;

/// Milliseconds between two ticks that flush a batch that is not full.
pub const SEND_DELAY_MILLIS: u64 = 500;

/// The size from which a batch is sent without waiting for a tick.
pub const SEND_THRESHOLD: usize = 1024 * 1024;

/// The capacity that a batch buffer starts with.
pub const BATCH_CAPACITY: usize = 2 * 1024 * 1024;

/// The number of chunks that may wait between the batcher and the sender.
pub const CHUNK_QUEUE_CAPACITY: usize = 100;

/// The largest capacity that a submission queue can have.
pub const MAX_QUEUE_CAPACITY: usize = usize::MAX / 8;

/// `tokio::sync::mpsc::Sender`, the sending half of a bounded channel.
#[verifier::external_type_specification]
#[verifier::external_body]
#[verifier::reject_recursive_types(T)]
pub struct ExSender<T>(Sender<T>);

/// `tokio::sync::mpsc::Receiver`, the receiving half of a bounded channel.
/// The library only carries it to the task that drains it.
#[verifier::external_type_specification]
#[verifier::external_body]
#[verifier::reject_recursive_types(T)]
pub struct ExReceiver<T>(Receiver<T>);

/// `stream_cancel::Trigger`, which fires its tripwire when it is dropped.
#[verifier::external_type_specification]
#[verifier::external_body]
pub struct ExTrigger(Trigger);

/// `stream_cancel::Tripwire`, a shutdown signal that tasks can wait for.
#[verifier::external_type_specification]
#[verifier::external_body]
pub struct ExTripwire(Tripwire);

/// The capacity that the channel behind a sender was made with.
pub uninterp spec fn channel_bound(sender: Sender<StatsdPDU>) -> usize;

/// `tokio::sync::mpsc::channel` makes a bounded channel that buffers up to
/// `buffer` messages. It panics for a capacity of zero or one above the
/// semaphore's maximum, which the precondition excludes.
#[verifier::external_body]
fn open_channel(buffer: usize) -> (r: (Sender<StatsdPDU>, Receiver<StatsdPDU>))
    requires
        0 < buffer <= MAX_QUEUE_CAPACITY,
    ensures
        channel_bound(r.0) == buffer,
{
    tokio::sync::mpsc::channel(buffer)
}

/// `Sender::max_capacity` returns the capacity that the channel was made
/// with; it stays the same whatever is sent or received.
#[verifier::external_body]
fn max_capacity(sender: &Sender<StatsdPDU>) -> (r: usize)
    ensures
        r == channel_bound(*sender),
{
    sender.max_capacity()
}

/// `Clone` for `Sender` gives another handle onto the same channel.
#[verifier::external_body]
fn clone_sender(sender: &Sender<StatsdPDU>) -> (r: Sender<StatsdPDU>)
    ensures
        channel_bound(r) == channel_bound(*sender),
{
    sender.clone()
}

/// `Sender::try_send` hands the line to the channel without waiting. Whether
/// it is taken depends on what the receiving task has drained so far, so
/// nothing is promised of the result.
#[verifier::external_body]
fn try_send(sender: &Sender<StatsdPDU>, pdu: StatsdPDU) -> (r: Result<(), SubmitError>) {
    match sender.try_send(pdu) {
        Ok(()) => Ok(()),
        Err(TrySendError::Full(_)) => Err(SubmitError::QueueFull),
        Err(TrySendError::Closed(_)) => Err(SubmitError::Closed),
    }
}

/// `Tripwire::new` makes a shutdown signal and the trigger that fires it.
pub assume_specification[ Tripwire::new ]() -> (r: (Trigger, Tripwire))
;

/// `Arc::clone` makes another pointer to the same value.
#[verifier::external_body]
fn share(inner: &Arc<StatsdClientInner>) -> (r: Arc<StatsdClientInner>)
    ensures
        r == *inner,
{
    Arc::clone(inner)
}

/// Why a line was not taken.
#[derive(Debug, Clone, Copy, PartialEq, Eq, Structural)]
pub enum SubmitError {
    /// The queue holds as many lines as its capacity allows.
    QueueFull,
    /// The receiving side is gone.
    Closed,
}

struct StatsdClientInner {
    endpoint: String,
    sender: Sender<StatsdPDU>,
    _trig: Trigger,
}

/// A handle onto the submission queue of one endpoint. Clones share the
/// queue; when the last one is dropped the endpoint's tasks are told to stop.
pub struct StatsdClient {
    inner: Arc<StatsdClientInner>,
}

/// What a new client needs to have run for it: the tasks that drain
/// `receiver` towards `endpoint` until `tripwire` fires.
pub struct ClientTask {
    pub endpoint: String,
    pub tripwire: Tripwire,
    pub receiver: Receiver<StatsdPDU>,
}

impl StatsdClient {
    /// The endpoint, `host:port`.
    pub closed spec fn endpoint_view(&self) -> Seq<char> {
        self.inner.endpoint@
    }

    /// The capacity of the submission queue.
    pub closed spec fn capacity(&self) -> usize {
        channel_bound(self.inner.sender)
    }

    /// Makes the handle for `endpoint` with a queue of `channel_buffer`
    /// lines, together with the work that has to be started for it.
    pub fn new(endpoint: &str, channel_buffer: usize) -> (r: (StatsdClient, ClientTask))
        requires
            0 < channel_buffer <= MAX_QUEUE_CAPACITY,
        ensures
            r.0.endpoint_view() == endpoint@,
            r.0.capacity() == channel_buffer,
            r.1.endpoint@ == endpoint@,
    {
        let (trig, trip) = Tripwire::new();
        let (sender, recv) = open_channel(channel_buffer);
        let inner = StatsdClientInner {
            endpoint: String::from_str(endpoint),
            sender,
            _trig: trig,
        };
        let task = ClientTask {
            endpoint: String::from_str(endpoint),
            tripwire: trip,
            receiver: recv,
        };
        (StatsdClient { inner: Arc::new(inner) }, task)
    }

    /// A sender onto the submission queue.
    pub fn sender(&self) -> (r: Sender<StatsdPDU>)
        ensures
            channel_bound(r) == self.capacity(),
    {
        clone_sender(&self.inner.sender)
    }

    /// The endpoint, `host:port`.
    pub fn endpoint(&self) -> (r: &str)
        ensures
            r@ == self.endpoint_view(),
    {
        self.inner.endpoint.as_str()
    }

    /// Whether this is the handle of `endpoint`.
    pub fn serves(&self, endpoint: &String) -> (r: bool)
        ensures
            r == (self.endpoint_view() == endpoint@),
    {
        self.inner.endpoint == *endpoint
    }

    /// The capacity of the submission queue.
    pub fn queue_capacity(&self) -> (r: usize)
        ensures
            r == self.capacity(),
    {
        max_capacity(&self.inner.sender)
    }

    /// Offers a line to the queue without waiting.
    pub fn try_submit(&self, pdu: StatsdPDU) -> (r: Result<(), SubmitError>) {
        try_send(&self.inner.sender, pdu)
    }
}

impl Clone for StatsdClient {
    /// Another handle onto the same queue.
    fn clone(&self) -> (r: Self)
        ensures
            r == *self,
    {
        StatsdClient { inner: share(&self.inner) }
    }
}

/// A buffer after the loss of its first line: what follows the first
/// newline, or all of it where it holds none.
pub open spec fn trimmed(buf: Seq<u8>) -> Seq<u8> {
    let i = index_of_byte(buf, NEWLINE);
    if 0 <= i < buf.len() {
        buf.skip(i + 1)
    } else {
        buf
    }
}

/// Drops the bytes up to and including the next newline. A write that failed
/// may have sent part of a line, so the rest of that line is given up.
pub fn trim_to_next_newline(buf: &mut BytesMut)
    ensures
        bytes_mut_of(*final(buf)) == trimmed(bytes_mut_of(*old(buf))),
{
    let held = buf.len();
    match memchr::memchr(NEWLINE, (*buf).as_ref()) {
        None => {
            proof {
                lemma_absent_is_len(bytes_mut_of(*buf), NEWLINE);
            }
        },
        Some(pos) => {
            proof {
                lemma_first_is_index(bytes_mut_of(*buf), NEWLINE, pos as int);
            }
            assert(pos < held);
            let _b = buf.split_to(pos + 1);
        },
    }
}

/// Whether a line of `len` bytes and its newline can join a batch that is
/// below the threshold without the batch outgrowing one allocation.
pub open spec fn fits_batch(len: nat) -> bool {
    len + 1 + SEND_THRESHOLD <= isize::MAX
}

/// What reaches the batcher.
pub enum BatchEvent {
    /// A line taken from the submission queue.
    Pdu(StatsdPDU),
    /// The ticker fired.
    Tick,
    /// The submission queue is closed and empty.
    Closed,
}

/// What the batcher asks for.
pub enum BatchAction {
    /// Nothing to send yet: wait for the next event.
    Wait,
    /// Hand this chunk to the sender, then wait for the next event.
    Send(BytesMut),
    /// Nothing is left to do.
    Exit,
}

/// Combines submitted lines into chunks. Each line is followed by a newline;
/// a chunk leaves when it has reached the threshold, or on a tick or at the
/// end when it is not empty.
pub struct Batcher {
    buf: BytesMut,
}

impl View for Batcher {
    type V = Seq<u8>;

    closed spec fn view(&self) -> Seq<u8> {
        bytes_mut_of(self.buf)
    }
}

impl Batcher {
    #[verifier::type_invariant]
    spec fn below_threshold(&self) -> bool {
        bytes_mut_of(self.buf).len() < SEND_THRESHOLD
    }

    /// A batcher with nothing pending.
    pub fn new() -> (r: Self)
        ensures
            r@ == Seq::<u8>::empty(),
    {
        Batcher { buf: BytesMut::with_capacity(BATCH_CAPACITY) }
    }

    /// Takes one event and says what to do. `self@` is what is pending.
    ///
    /// A line joins the pending bytes with a newline after it; from the
    /// threshold on, all of it leaves as one chunk. A line too large to be
    /// buffered is dropped. A tick sends what is pending, if anything. When
    /// the queue has closed, what is pending is sent; with nothing pending
    /// the batcher is done.
    pub fn step(&mut self, event: BatchEvent) -> (r: BatchAction)
        ensures
            match event {
                BatchEvent::Pdu(pdu) => {
                    let grown = old(self)@ + pdu@.wire() + seq![NEWLINE];
                    if !fits_batch(pdu@.wire().len()) {
                        r is Wait && final(self)@ == old(self)@
                    } else if grown.len() < SEND_THRESHOLD {
                        r is Wait && final(self)@ == grown
                    } else {
                        &&& r matches BatchAction::Send(chunk) && bytes_mut_of(chunk) == grown
                        &&& final(self)@ == Seq::<u8>::empty()
                    }
                },
                BatchEvent::Tick => if old(self)@.len() == 0 {
                    r is Wait && final(self)@ == old(self)@
                } else {
                    &&& r matches BatchAction::Send(chunk) && bytes_mut_of(chunk) == old(self)@
                    &&& final(self)@ == Seq::<u8>::empty()
                },
                BatchEvent::Closed => if old(self)@.len() == 0 {
                    r is Exit && final(self)@ == old(self)@
                } else {
                    &&& r matches BatchAction::Send(chunk) && bytes_mut_of(chunk) == old(self)@
                    &&& final(self)@ == Seq::<u8>::empty()
                },
            },
    {
        proof {
            use_type_invariant(&*self);
        }
        let mut buf = BytesMut::new();
        core::mem::swap(&mut self.buf, &mut buf);
        let ghost pending = bytes_mut_of(buf);
        let action = match event {
            BatchEvent::Pdu(pdu) => {
                let line = pdu.as_bytes();
                if line.len() > isize::MAX as usize - SEND_THRESHOLD - 1 {
                    None
                } else {
                    let newline: [u8; 1] = [NEWLINE];
                    buf.extend_from_slice(line);
                    buf.extend_from_slice(newline.as_slice());
                    assert(bytes_mut_of(buf) =~= pending + pdu@.wire() + seq![NEWLINE]);
                    if buf.len() < SEND_THRESHOLD {
                        None
                    } else {
                        Some(false)
                    }
                }
            },
            BatchEvent::Tick => if buf.is_empty() {
                None
            } else {
                Some(false)
            },
            BatchEvent::Closed => if buf.is_empty() {
                Some(true)
            } else {
                Some(false)
            },
        };
        match action {
            None => {
                core::mem::swap(&mut self.buf, &mut buf);
                BatchAction::Wait
            },
            Some(true) => {
                core::mem::swap(&mut self.buf, &mut buf);
                BatchAction::Exit
            },
            Some(false) => {
                let chunk = buf.split();
                core::mem::swap(&mut self.buf, &mut buf);
                BatchAction::Send(chunk)
            },
        }
    }
}

/// The state of the connection to the endpoint.
#[derive(Debug, Clone, Copy, PartialEq, Eq, Structural)]
pub enum Link {
    /// No connection, and none being made.
    Disconnected,
    /// A connection attempt is under way.
    Connecting,
    /// The connection stands.
    Connected,
}

/// What reaches the sender.
pub enum SendEvent {
    /// The connection attempt succeeded.
    Connected,
    /// The connection attempt failed or timed out.
    ConnectFailed,
    /// The shutdown signal fired during the connection attempt.
    ConnectCancelled,
    /// The batcher handed over a chunk.
    Chunk(BytesMut),
    /// The batcher is gone.
    QueueClosed,
    /// A write took this many bytes off the front of the chunk.
    Wrote(usize),
    /// A write failed.
    WriteFailed,
}

/// What the sender asks for.
#[derive(Debug, Clone, Copy, PartialEq, Eq, Structural)]
pub enum SendAction {
    /// Try to connect now.
    Connect,
    /// Wait for the reconnect delay, then try to connect.
    ConnectAfterDelay,
    /// Wait for the next chunk.
    AwaitChunk,
    /// Write what is pending to the connection.
    Write,
    /// Stop.
    Exit,
}

/// The sender as contracts see it.
pub struct SenderState {
    pub link: Link,
    pub chunk: Option<Seq<u8>>,
}

/// What is left of a chunk after a write took `n` bytes.
pub open spec fn unwritten(chunk: Seq<u8>, n: usize) -> Seq<u8> {
    if n <= chunk.len() {
        chunk.skip(n as int)
    } else {
        Seq::empty()
    }
}

/// Writes chunks to a connection that is made when first needed and made
/// again after it failed.
pub struct ClientSender {
    link: Link,
    chunk: Option<BytesMut>,
}

impl View for ClientSender {
    type V = SenderState;

    closed spec fn view(&self) -> SenderState {
        SenderState {
            link: self.link,
            chunk: match self.chunk {
                Some(buf) => Some(bytes_mut_of(buf)),
                None => None,
            },
        }
    }
}

impl ClientSender {
    /// A sender that is about to make its first connection attempt: the
    /// caller starts with [`SendAction::Connect`].
    pub fn new() -> (r: Self)
        ensures
            r@ == (SenderState { link: Link::Connecting, chunk: None }),
    {
        ClientSender { link: Link::Connecting, chunk: None }
    }

    /// The state of the connection.
    pub fn link(&self) -> (r: Link)
        ensures
            r == self@.link,
    {
        self.link
    }

    /// The bytes to write next: the pending chunk, or nothing.
    pub fn pending(&self) -> (r: &[u8])
        ensures
            r@ == match self@.chunk {
                Some(bytes) => bytes,
                None => Seq::empty(),
            },
    {
        match &self.chunk {
            Some(buf) => buf.as_ref(),
            None => {
                let nothing: &[u8] = &[];
                assert(nothing@ =~= Seq::<u8>::empty());
                nothing
            },
        }
    }

    /// Takes one event and says what to do next.
    ///
    /// A failed attempt is repeated after the delay. A cancelled attempt
    /// ends the sender when a chunk is waiting, and leaves it disconnected
    /// and waiting for one otherwise. A new chunk is written at once over a
    /// standing connection and starts an attempt without one. A write that
    /// took something is followed by a write of what is left, so that the
    /// bytes of a chunk reach the connection in order and whole. A failed
    /// write, or a write of nothing while bytes are pending, gives up what is
    /// left of the line that was being sent, up to and including its newline,
    /// and connects anew: nothing else is ever skipped. A write of nothing
    /// with nothing pending leads to the next chunk.
    pub fn step(&mut self, event: SendEvent) -> (r: SendAction)
        ensures
            match event {
                SendEvent::Connected => {
                    &&& final(self)@ == (SenderState { link: Link::Connected, ..old(self)@ })
                    &&& r == if old(self)@.chunk is Some {
                        SendAction::Write
                    } else {
                        SendAction::AwaitChunk
                    }
                },
                SendEvent::ConnectFailed => {
                    &&& final(self)@ == (SenderState { link: Link::Connecting, ..old(self)@ })
                    &&& r == SendAction::ConnectAfterDelay
                },
                SendEvent::ConnectCancelled => {
                    &&& final(self)@ == (SenderState { link: Link::Disconnected, ..old(self)@ })
                    &&& r == if old(self)@.chunk is Some {
                        SendAction::Exit
                    } else {
                        SendAction::AwaitChunk
                    }
                },
                SendEvent::Chunk(buf) => {
                    &&& final(self)@.chunk == Some(bytes_mut_of(buf))
                    &&& if old(self)@.link == Link::Connected {
                        final(self)@.link == Link::Connected && r == SendAction::Write
                    } else {
                        final(self)@.link == Link::Connecting && r == SendAction::Connect
                    }
                },
                SendEvent::QueueClosed => final(self)@ == old(self)@ && r == SendAction::Exit,
                SendEvent::Wrote(n) => match old(self)@.chunk {
                    None => final(self)@ == old(self)@ && r == SendAction::AwaitChunk,
                    Some(chunk) => {
                        let rest = unwritten(chunk, n);
                        if n == 0 && rest.len() > 0 {
                            &&& final(self)@ == (SenderState {
                                link: Link::Connecting,
                                chunk: Some(trimmed(rest)),
                            })
                            &&& r == SendAction::Connect
                        } else if n > 0 {
                            &&& final(self)@ == (SenderState { chunk: Some(rest), ..old(self)@ })
                            &&& r == SendAction::Write
                        } else {
                            &&& final(self)@ == (SenderState { chunk: None, ..old(self)@ })
                            &&& r == SendAction::AwaitChunk
                        }
                    },
                },
                SendEvent::WriteFailed => match old(self)@.chunk {
                    None => final(self)@ == old(self)@ && r == SendAction::AwaitChunk,
                    Some(chunk) => {
                        &&& final(self)@ == (SenderState {
                            link: Link::Connecting,
                            chunk: Some(trimmed(chunk)),
                        })
                        &&& r == SendAction::Connect
                    },
                },
            },
    {
        match event {
            SendEvent::Connected => {
                self.link = Link::Connected;
                if self.chunk.is_some() {
                    SendAction::Write
                } else {
                    SendAction::AwaitChunk
                }
            },
            SendEvent::ConnectFailed => {
                self.link = Link::Connecting;
                SendAction::ConnectAfterDelay
            },
            SendEvent::ConnectCancelled => {
                self.link = Link::Disconnected;
                if self.chunk.is_some() {
                    SendAction::Exit
                } else {
                    SendAction::AwaitChunk
                }
            },
            SendEvent::Chunk(buf) => {
                self.chunk = Some(buf);
                match self.link {
                    Link::Connected => SendAction::Write,
                    _ => {
                        self.link = Link::Connecting;
                        SendAction::Connect
                    },
                }
            },
            SendEvent::QueueClosed => SendAction::Exit,
            SendEvent::Wrote(n) => {
                match self.chunk.take() {
                    None => SendAction::AwaitChunk,
                    Some(mut buf) => {
                        let ghost chunk = bytes_mut_of(buf);
                        if n <= buf.len() {
                            let _written = buf.split_to(n);
                        } else {
                            buf.clear();
                        }
                        assert(bytes_mut_of(buf) =~= unwritten(chunk, n));
                        if n == 0 && !buf.is_empty() {
                            trim_to_next_newline(&mut buf);
                            self.chunk = Some(buf);
                            self.link = Link::Connecting;
                            SendAction::Connect
                        } else if n > 0 {
                            self.chunk = Some(buf);
                            SendAction::Write
                        } else {
                            SendAction::AwaitChunk
                        }
                    },
                }
            },
            SendEvent::WriteFailed => {
                match self.chunk.take() {
                    None => SendAction::AwaitChunk,
                    Some(mut buf) => {
                        trim_to_next_newline(&mut buf);
                        self.chunk = Some(buf);
                        self.link = Link::Connecting;
                        SendAction::Connect
                    },
                }
            },
        }
    }
}

} // verus!
