//! The ingest side: cutting a byte stream into lines, and what a connection
//! does with each outcome of a read.

use crate::buffer::bytes_mut_of;
use crate::scan::absent;
use crate::scan::index_of_byte;
use crate::scan::is_first_at;
use crate::scan::last_index_of_byte;
use crate::scan::lemma_absent_is_len;
use crate::scan::lemma_first_is_index;
use crate::scan::lemma_index_of_byte;
use crate::scan::lemma_last_index_of_byte;
use crate::scan::lemma_last_is_index;
use crate::statsd::is_statsd_line;
use crate::statsd::lemma_split_line;
use crate::statsd::split_line;
use crate::statsd::Line;
use crate::statsd::StatsdPDU;
use crate::backends::Backends;
use crate::backends::Delivery;
use bytes::BytesMut;
use vstd::prelude::*;

verus! {

/// The byte that ends a line.
pub const NEWLINE: u8 = 10;

/// The byte that may precede the line end and is then dropped with it.
pub const CARRIAGE_RETURN: u8 = 13;

/// Seconds a connection may stay silent before it is closed.
pub const TCP_READ_TIMEOUT_SECS: u64 = 62;

/// Seconds the datagram socket waits before it looks at the shutdown flag.
pub const UDP_READ_TIMEOUT_SECS: u64 = 1;

/// Seconds allowed for writing the farewell line at shutdown.
pub const GOODBYE_TIMEOUT_SECS: u64 = 1;

/// The views of a sequence of parsed lines.
pub open spec fn lines_of(pdus: Seq<StatsdPDU>) -> Seq<Line> {
    pdus.map_values(|p: StatsdPDU| p@)
}

/// The candidate in the bytes before a newline: those bytes, less one
/// carriage return at their end.
pub open spec fn line_body(line: Seq<u8>) -> Seq<u8> {
    if line.len() > 0 && line.last() == CARRIAGE_RETURN {
        line.drop_last()
    } else {
        line
    }
}

/// The candidate as a list of lines: one line where it parses, none where it
/// does not.
pub open spec fn parsed(candidate: Seq<u8>) -> Seq<Line> {
    match split_line(candidate) {
        Some(line) => seq![line],
        None => Seq::empty(),
    }
}

/// The lines that a buffer gives: for each newline in turn, the candidate
/// before it where that candidate parses. Malformed candidates leave no trace.
pub open spec fn emitted(buf: Seq<u8>) -> Seq<Line>
    decreases buf.len(),
{
    let i = index_of_byte(buf, NEWLINE);
    if 0 <= i < buf.len() {
        parsed(line_body(buf.take(i))) + emitted(buf.skip(i + 1))
    } else {
        Seq::empty()
    }
}

/// What stays in a buffer for the next read: the bytes after its last
/// newline, all of it where it has none.
pub open spec fn residual(buf: Seq<u8>) -> Seq<u8> {
    buf.skip(last_index_of_byte(buf, NEWLINE) + 1)
}

/// Taking the first line off a buffer does not change what stays at its end.
proof fn lemma_residual_step(buf: Seq<u8>, i: int)
    requires
        is_first_at(buf, NEWLINE, i),
    ensures
        residual(buf) == residual(buf.skip(i + 1)),
{
    let rest = buf.skip(i + 1);
    let last = last_index_of_byte(rest, NEWLINE);
    lemma_last_index_of_byte(rest, NEWLINE);
    if last >= 0 {
        assert(buf[i + 1 + last] == rest[last]);
        assert forall|j: int| i + 1 + last < j < buf.len() implies buf[j] != NEWLINE by {
            assert(buf[j] == rest[j - i - 1]);
        }
        lemma_last_is_index(buf, NEWLINE, i + 1 + last);
        assert(buf.skip(i + 1 + last + 1) =~= rest.skip(last + 1));
    } else {
        assert forall|j: int| i < j < buf.len() implies buf[j] != NEWLINE by {
            assert(buf[j] == rest[j - i - 1]);
        }
        lemma_last_is_index(buf, NEWLINE, i);
        assert(rest.skip(0) =~= rest);
    }
}

/// A buffer without a newline gives no line and stays whole.
proof fn lemma_no_newline(buf: Seq<u8>)
    requires
        absent(buf, NEWLINE),
    ensures
        emitted(buf) == Seq::<Line>::empty(),
        residual(buf) == buf,
{
    lemma_absent_is_len(buf, NEWLINE);
    lemma_last_index_of_byte(buf, NEWLINE);
    assert(last_index_of_byte(buf, NEWLINE) == -1);
    assert(buf.skip(0) =~= buf);
}

/// What stays in a buffer holds no newline, and it is the end of the buffer.
pub proof fn lemma_residual(buf: Seq<u8>)
    ensures
        absent(residual(buf), NEWLINE),
        residual(buf).len() <= buf.len(),
        residual(buf) == buf.skip(buf.len() - residual(buf).len()),
        residual(residual(buf)) == residual(buf),
{
    lemma_last_index_of_byte(buf, NEWLINE);
    let last = last_index_of_byte(buf, NEWLINE);
    assert forall|j: int| 0 <= j < residual(buf).len() implies residual(buf)[j] != NEWLINE by {
        assert(residual(buf)[j] == buf[last + 1 + j]);
    }
    lemma_no_newline(residual(buf));
}

/// Reading a stream in pieces gives the same lines as reading it whole: the
/// lines of `first` followed by `more` are the lines of `first`, and then the
/// lines of what `first` left behind followed by `more`.
pub proof fn lemma_emitted_in_pieces(first: Seq<u8>, more: Seq<u8>)
    ensures
        emitted(first + more) == emitted(first) + emitted(residual(first) + more),
    decreases first.len(),
{
    let i = index_of_byte(first, NEWLINE);
    lemma_index_of_byte(first, NEWLINE);
    if 0 <= i < first.len() {
        let whole = first + more;
        let rest = first.skip(i + 1);
        assert forall|j: int| 0 <= j < i implies whole[j] != NEWLINE by {
            assert(whole[j] == first[j]);
        }
        assert(whole[i] == first[i]);
        lemma_first_is_index(whole, NEWLINE, i);
        assert(whole.take(i) =~= first.take(i));
        assert(whole.skip(i + 1) =~= rest + more);
        lemma_emitted_in_pieces(rest, more);
        lemma_residual_step(first, i);
        let head = parsed(line_body(first.take(i)));
        assert(head + (emitted(rest) + emitted(residual(rest) + more)) =~= (head + emitted(rest))
            + emitted(residual(rest) + more));
    } else {
        lemma_no_newline(first);
        assert(Seq::<Line>::empty() + emitted(first + more) =~= emitted(first + more));
    }
}

/// Reading a stream in pieces leaves the same bytes behind as reading it
/// whole: what stays of `first` followed by `more` is what stays of what
/// `first` left behind followed by `more`.
pub proof fn lemma_residual_in_pieces(first: Seq<u8>, more: Seq<u8>)
    ensures
        residual(first + more) == residual(residual(first) + more),
    decreases first.len(),
{
    let i = index_of_byte(first, NEWLINE);
    lemma_index_of_byte(first, NEWLINE);
    if 0 <= i < first.len() {
        let whole = first + more;
        let rest = first.skip(i + 1);
        assert forall|j: int| 0 <= j < i implies whole[j] != NEWLINE by {
            assert(whole[j] == first[j]);
        }
        assert(whole[i] == first[i]);
        assert(whole.skip(i + 1) =~= rest + more);
        lemma_residual_step(whole, i);
        lemma_residual_step(first, i);
        lemma_residual_in_pieces(rest, more);
    } else {
        lemma_no_newline(first);
    }
}

/// Every line that a buffer gives is a StatsD line without a newline in it.
pub proof fn lemma_emitted_lines(buf: Seq<u8>)
    ensures
        forall|k: int|
            0 <= k < emitted(buf).len() ==> is_statsd_line((#[trigger] emitted(buf)[k]).wire())
                && absent(emitted(buf)[k].wire(), NEWLINE),
    decreases buf.len(),
{
    let i = index_of_byte(buf, NEWLINE);
    if 0 <= i < buf.len() {
        lemma_index_of_byte(buf, NEWLINE);
        let body = line_body(buf.take(i));
        let rest = emitted(buf.skip(i + 1));
        lemma_emitted_lines(buf.skip(i + 1));
        lemma_split_line(body);
        assert forall|k: int| 0 <= k < emitted(buf).len() implies is_statsd_line(
            (#[trigger] emitted(buf)[k]).wire(),
        ) && absent(emitted(buf)[k].wire(), NEWLINE) by {
            if k < parsed(body).len() {
                let line = split_line(body)->0;
                assert(emitted(buf)[k] == line);
                assert forall|j: int| 0 <= j < body.len() implies body[j] != NEWLINE by {
                    assert(body[j] == buf[j]);
                }
            } else {
                assert(emitted(buf)[k] == rest[k - parsed(body).len()]);
            }
        }
    }
}

/// Cuts the complete lines off the front of `buf` and parses each. Returned
/// are the lines that parse, in order; left in `buf` are the bytes after the
/// last newline.
pub fn process_buffer_newlines(buf: &mut BytesMut) -> (ret: Vec<StatsdPDU>)
    ensures
        lines_of(ret@) == emitted(bytes_mut_of(*old(buf))),
        ret@.len() == emitted(bytes_mut_of(*old(buf))).len(),
        bytes_mut_of(*final(buf)) == residual(bytes_mut_of(*old(buf))),
{
    let mut ret: Vec<StatsdPDU> = Vec::new();
    assert(lines_of(ret@) =~= Seq::<Line>::empty());
    loop
        invariant
            lines_of(ret@) + emitted(bytes_mut_of(*buf)) == emitted(bytes_mut_of(*old(buf))),
            residual(bytes_mut_of(*buf)) == residual(bytes_mut_of(*old(buf))),
        ensures
            absent(bytes_mut_of(*buf), NEWLINE),
        decreases bytes_mut_of(*buf).len(),
    {
        let ghost before = bytes_mut_of(*buf);
        let ghost done = lines_of(ret@);
        let held = buf.len();
        let newline = match memchr::memchr(NEWLINE, (*buf).as_ref()) {
            None => {
                break ;
            },
            Some(newline) => newline,
        };
        proof {
            lemma_first_is_index(before, NEWLINE, newline as int);
            lemma_residual_step(before, newline as int);
        }
        assert(newline < held);
        let mut incoming = buf.split_to(newline + 1);
        assert(bytes_mut_of(*buf) =~= before.skip(newline + 1));
        let keep = if newline >= 1 && incoming.as_ref()[newline - 1] == CARRIAGE_RETURN {
            newline - 1
        } else {
            newline
        };
        incoming.truncate(keep);
        assert(bytes_mut_of(incoming) =~= line_body(before.take(newline as int)));
        match StatsdPDU::new(incoming.freeze()) {
            Some(pdu) => {
                ret.push(pdu);
                assert(lines_of(ret@) =~= done + seq![pdu@]);
            },
            None => {},
        }
        assert(lines_of(ret@) =~= done + parsed(line_body(before.take(newline as int))));
        assert(lines_of(ret@) + emitted(bytes_mut_of(*buf)) =~= done + emitted(before));
    }
    proof {
        lemma_no_newline(bytes_mut_of(*buf));
        assert(lines_of(ret@) + Seq::<Line>::empty() =~= lines_of(ret@));
    }
    ret
}

/// Takes a whole datagram apart: its complete lines and then what follows
/// the last newline are each tried as a line. The buffer is left empty.
pub fn process_datagram(buf: &mut BytesMut) -> (ret: Vec<StatsdPDU>)
    ensures
        lines_of(ret@) == emitted(bytes_mut_of(*old(buf))) + parsed(
            residual(bytes_mut_of(*old(buf))),
        ),
        ret@.len() == emitted(bytes_mut_of(*old(buf))).len() + parsed(
            residual(bytes_mut_of(*old(buf))),
        ).len(),
        bytes_mut_of(*final(buf)) == Seq::<u8>::empty(),
{
    let mut ret = process_buffer_newlines(buf);
    let ghost complete = lines_of(ret@);
    let remnant = buf.split();
    match StatsdPDU::new(remnant.freeze()) {
        Some(pdu) => {
            ret.push(pdu);
            assert(lines_of(ret@) =~= complete + seq![pdu@]);
        },
        None => {
            assert(lines_of(ret@) =~= complete + Seq::<Line>::empty());
        },
    }
    ret
}

/// How a read on a connection ended.
#[derive(Debug, Clone, Copy, PartialEq, Eq, Structural)]
pub enum ReadEvent {
    /// This many bytes were appended to the buffer; none means end of stream.
    Read(usize),
    /// Nothing arrived within the read timeout.
    TimedOut,
    /// The socket reported an error.
    Failed,
    /// The shutdown signal fired.
    Shutdown,
}

/// Where a connection stands after a read was dealt with.
#[derive(Debug, Clone, Copy, PartialEq, Eq, Structural)]
pub enum ConnectionState {
    /// Open: read again.
    Reading,
    /// Closed at the end of the stream.
    ClosedEof,
    /// Closed after the read timeout.
    ClosedTimeout,
    /// Closed after a socket error.
    ClosedError,
    /// Closed at shutdown, after a farewell line.
    ClosedShutdown,
}

/// The state that follows a read.
pub open spec fn state_after(event: ReadEvent) -> ConnectionState {
    match event {
        ReadEvent::Read(n) => if n == 0 {
            ConnectionState::ClosedEof
        } else {
            ConnectionState::Reading
        },
        ReadEvent::TimedOut => ConnectionState::ClosedTimeout,
        ReadEvent::Failed => ConnectionState::ClosedError,
        ReadEvent::Shutdown => ConnectionState::ClosedShutdown,
    }
}

/// The lines that a read yields from what the buffer holds: after data, the
/// complete lines; at the end of the stream also what follows the last
/// newline, where it parses; else none.
pub open spec fn lines_after(buf: Seq<u8>, event: ReadEvent) -> Seq<Line> {
    match event {
        ReadEvent::Read(n) => if n == 0 {
            emitted(buf) + parsed(residual(buf))
        } else {
            emitted(buf)
        },
        _ => Seq::empty(),
    }
}

/// What the buffer holds after a read was dealt with: after data, what
/// follows the last newline; at the end of the stream, nothing; else what it
/// held.
pub open spec fn buffer_after(buf: Seq<u8>, event: ReadEvent) -> Seq<u8> {
    match event {
        ReadEvent::Read(n) => if n == 0 {
            Seq::empty()
        } else {
            residual(buf)
        },
        _ => buf,
    }
}

/// What a connection does after a read.
pub struct ReadStep {
    /// The lines to hand to the backends, in order.
    pub pdus: Vec<StatsdPDU>,
    /// The state to go on in.
    pub next: ConnectionState,
    /// Whether to write the farewell line before closing.
    pub goodbye: bool,
}

/// The farewell line written to a connection that is closed at shutdown.
pub fn goodbye_line() -> (r: &'static str)
    ensures
        r@ == "server closing due to shutdown, goodbye\n"@,
{
    "server closing due to shutdown, goodbye\n"
}

/// Deals with the outcome of one read on a connection whose unread bytes are
/// in `buf`.
pub fn client_read(buf: &mut BytesMut, event: ReadEvent) -> (r: ReadStep)
    ensures
        lines_of(r.pdus@) == lines_after(bytes_mut_of(*old(buf)), event),
        r.pdus@.len() == lines_after(bytes_mut_of(*old(buf)), event).len(),
        bytes_mut_of(*final(buf)) == buffer_after(bytes_mut_of(*old(buf)), event),
        r.next == state_after(event),
        r.goodbye == (event is Shutdown),
{
    match event {
        ReadEvent::Read(n) => {
            if n == 0 {
                let pdus = process_datagram(buf);
                ReadStep { pdus, next: ConnectionState::ClosedEof, goodbye: false }
            } else {
                let pdus = process_buffer_newlines(buf);
                ReadStep { pdus, next: ConnectionState::Reading, goodbye: false }
            }
        },
        ReadEvent::TimedOut => {
            let pdus: Vec<StatsdPDU> = Vec::new();
            assert(lines_of(pdus@) =~= Seq::<Line>::empty());
            ReadStep { pdus, next: ConnectionState::ClosedTimeout, goodbye: false }
        },
        ReadEvent::Failed => {
            let pdus: Vec<StatsdPDU> = Vec::new();
            assert(lines_of(pdus@) =~= Seq::<Line>::empty());
            ReadStep { pdus, next: ConnectionState::ClosedError, goodbye: false }
        },
        ReadEvent::Shutdown => {
            let pdus: Vec<StatsdPDU> = Vec::new();
            assert(lines_of(pdus@) =~= Seq::<Line>::empty());
            ReadStep { pdus, next: ConnectionState::ClosedShutdown, goodbye: true }
        },
    }
}

/// Offers each line in turn to every backend. Returned is, for each line,
/// what became of it at each backend.
pub fn provide_all(backends: &Backends, pdus: &Vec<StatsdPDU>) -> (r: Vec<Vec<Delivery>>)
    ensures
        r@.len() == pdus@.len(),
        forall|i: int| 0 <= i < r@.len() ==> backends.offered(pdus@[i]@, (#[trigger] r@[i])@),
{
    let mut outcomes: Vec<Vec<Delivery>> = Vec::new();
    let mut i: usize = 0;
    while i < pdus.len()
        invariant
            0 <= i <= pdus@.len(),
            outcomes@.len() == i,
            forall|k: int|
                0 <= k < i ==> backends.offered(pdus@[k]@, (#[trigger] outcomes@[k])@),
        decreases pdus@.len() - i,
    {
        let outcome = backends.provide_statsd_pdu(pdus[i].clone());
        outcomes.push(outcome);
        i += 1;
    }
    outcomes
}

/// What a connection did after a read.
pub struct ClientStep {
    /// What became of each line that the read yielded, at each backend.
    pub deliveries: Vec<Vec<Delivery>>,
    /// The state to go on in.
    pub next: ConnectionState,
    /// Whether to write the farewell line before closing.
    pub goodbye: bool,
}

/// Deals with the outcome of one read and hands the lines that it yields to
/// the backends.
pub fn client_step(buf: &mut BytesMut, event: ReadEvent, backends: &Backends) -> (r: ClientStep)
    ensures
        r.deliveries@.len() == lines_after(bytes_mut_of(*old(buf)), event).len(),
        forall|i: int|
            0 <= i < r.deliveries@.len() ==> backends.offered(
                lines_after(bytes_mut_of(*old(buf)), event)[i],
                (#[trigger] r.deliveries@[i])@,
            ),
        bytes_mut_of(*final(buf)) == buffer_after(bytes_mut_of(*old(buf)), event),
        r.next == state_after(event),
        r.goodbye == (event is Shutdown),
{
    let step = client_read(buf, event);
    let deliveries = provide_all(backends, &step.pdus);
    assert forall|i: int| 0 <= i < deliveries@.len() implies backends.offered(
        lines_after(bytes_mut_of(*old(buf)), event)[i],
        (#[trigger] deliveries@[i])@,
    ) by {
        assert(lines_of(step.pdus@)[i] == step.pdus@[i]@);
    }
    ClientStep { deliveries, next: step.next, goodbye: step.goodbye }
}

/// Takes a datagram apart and hands its lines to the backends.
pub fn datagram_step(buf: &mut BytesMut, backends: &Backends) -> (r: Vec<Vec<Delivery>>)
    ensures
        r@.len() == lines_after(bytes_mut_of(*old(buf)), ReadEvent::Read(0)).len(),
        forall|i: int|
            0 <= i < r@.len() ==> backends.offered(
                lines_after(bytes_mut_of(*old(buf)), ReadEvent::Read(0))[i],
                (#[trigger] r@[i])@,
            ),
        bytes_mut_of(*final(buf)) == Seq::<u8>::empty(),
{
    let pdus = process_datagram(buf);
    let deliveries = provide_all(backends, &pdus);
    assert forall|i: int| 0 <= i < deliveries@.len() implies backends.offered(
        lines_after(bytes_mut_of(*old(buf)), ReadEvent::Read(0))[i],
        (#[trigger] deliveries@[i])@,
    ) by {
        assert(lines_of(pdus@)[i] == pdus@[i]@);
    }
    deliveries
}

} // verus!
