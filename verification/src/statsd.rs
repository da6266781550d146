//! One StatsD line, `name:value|type[|...]`, as an immutable view over a
//! shared byte buffer.

use crate::buffer::bytes_of;
use crate::scan::absent;
use crate::scan::index_of_byte;
use crate::scan::last_index_of_byte;
use crate::scan::lemma_absent_is_len;
use crate::scan::lemma_first_is_index;
use crate::scan::lemma_index_of_byte;
use crate::scan::lemma_last_index_of_byte;
use crate::scan::lemma_last_is_index;
use bytes::Bytes;
use bytes::BytesMut;
use vstd::prelude::*;
use vstd::slice::slice_subrange;

verus! {

/// The byte that ends the metric name.
pub const COLON: u8 = 58;

/// The byte that ends the value and each later section.
pub const BAR: u8 = 124;

/// What a line consists of: the name before the separating `:`, the value
/// between that `:` and the `|` after it, the type after that `|`, and
/// whatever follows the type (empty, or a `|` and further sections such as a
/// sample rate).
pub struct Line {
    pub name: Seq<u8>,
    pub value: Seq<u8>,
    pub kind: Seq<u8>,
    pub trailer: Seq<u8>,
}

impl Line {
    /// The line as it travels: the segments joined by their separators.
    pub open spec fn wire(self) -> Seq<u8> {
        self.name + seq![COLON] + self.value + seq![BAR] + self.kind + self.trailer
    }

    /// The same line with `prefix` put before its name and `suffix` after it.
    pub open spec fn with_affixes(self, prefix: Seq<u8>, suffix: Seq<u8>) -> Line {
        Line { name: prefix + self.name + suffix, ..self }
    }
}

/// A candidate is a StatsD line when it holds a `:` that is followed,
/// somewhere later, by a `|`.
pub open spec fn is_statsd_line(line: Seq<u8>) -> bool {
    exists|i: int, j: int| 0 <= i < j < line.len() && line[i] == COLON && line[j] == BAR
}

/// How a candidate splits. The type separator is the first `|` that comes
/// after a `:`; the name ends at the last `:` before that separator, so names
/// may hold colons of their own; the type runs to the next `|` or to the end.
pub open spec fn split_line(line: Seq<u8>) -> Option<Line> {
    let first = index_of_byte(line, COLON);
    if first >= line.len() {
        None
    } else {
        let bar = first + 1 + index_of_byte(line.skip(first + 1), BAR);
        if bar >= line.len() {
            None
        } else {
            let colon = last_index_of_byte(line.take(bar), COLON);
            let end = bar + 1 + index_of_byte(line.skip(bar + 1), BAR);
            Some(
                Line {
                    name: line.take(colon),
                    value: line.subrange(colon + 1, bar),
                    kind: line.subrange(bar + 1, end),
                    trailer: line.skip(end),
                },
            )
        }
    }
}

/// A candidate splits exactly when it is a StatsD line, and the segments it
/// splits into join back to the candidate: the value holds neither separator
/// and the type holds no `|`.
pub proof fn lemma_split_line(line: Seq<u8>)
    ensures
        split_line(line) is Some <==> is_statsd_line(line),
        split_line(line) matches Some(l) ==> {
            &&& l.wire() == line
            &&& absent(l.value, COLON)
            &&& absent(l.value, BAR)
            &&& absent(l.kind, BAR)
            &&& (l.trailer.len() > 0 ==> l.trailer[0] == BAR)
        },
{
    let first = index_of_byte(line, COLON);
    lemma_index_of_byte(line, COLON);
    if first < line.len() {
        let after = line.skip(first + 1);
        lemma_index_of_byte(after, BAR);
        let bar = first + 1 + index_of_byte(after, BAR);
        if bar < line.len() {
            assert(line[bar] == after[bar - first - 1]);
            assert(0 <= first < bar < line.len() && line[first] == COLON && line[bar] == BAR);
            let head = line.take(bar);
            lemma_last_index_of_byte(head, COLON);
            let colon = last_index_of_byte(head, COLON);
            assert(head[first] == COLON);
            assert(colon >= first);
            assert(head[colon] == line[colon]);
            let tail = line.skip(bar + 1);
            lemma_index_of_byte(tail, BAR);
            let end = bar + 1 + index_of_byte(tail, BAR);
            let l = split_line(line)->0;
            assert(l.wire() =~= line);
            assert forall|j: int| 0 <= j < l.value.len() implies l.value[j] != COLON && l.value[j]
                != BAR by {
                assert(l.value[j] == head[colon + 1 + j]);
                assert(l.value[j] == after[colon + j - first]);
            }
            assert forall|j: int| 0 <= j < l.kind.len() implies l.kind[j] != BAR by {
                assert(l.kind[j] == tail[j]);
            }
            if l.trailer.len() > 0 {
                assert(l.trailer[0] == tail[end - bar - 1]);
            }
        } else {
            assert forall|i: int, j: int|
                0 <= i < j < line.len() && line[i] == COLON implies line[j] != BAR by {
                assert(i >= first);
                assert(line[j] == after[j - first - 1]);
            }
        }
    } else {
        assert(!is_statsd_line(line));
    }
}

/// One parsed StatsD line. The bytes are shared, never copied, between the
/// clones of a line.
pub struct StatsdPDU {
    underlying: Bytes,
    value_index: usize,
    type_index: usize,
    type_index_end: usize,
}

impl View for StatsdPDU {
    type V = Line;

    closed spec fn view(&self) -> Line {
        let b = bytes_of(self.underlying);
        Line {
            name: b.take(self.value_index - 1),
            value: b.subrange(self.value_index as int, self.type_index - 1),
            kind: b.subrange(self.type_index as int, self.type_index_end as int),
            trailer: b.skip(self.type_index_end as int),
        }
    }
}

impl StatsdPDU {
    #[verifier::type_invariant]
    spec fn well_formed(&self) -> bool {
        let b = bytes_of(self.underlying);
        &&& 1 <= self.value_index < self.type_index <= self.type_index_end <= b.len()
        &&& b[self.value_index - 1] == COLON
        &&& b[self.type_index - 1] == BAR
    }

    /// Parses one candidate line. The result is `Some` exactly for the
    /// candidates that [`split_line`] splits, and then holds those segments.
    pub fn new(line: Bytes) -> (r: Option<StatsdPDU>)
        ensures
            match r {
                Some(pdu) => split_line(bytes_of(line)) == Some(pdu@),
                None => split_line(bytes_of(line)) is None,
            },
    {
        let s = line.as_ref();
        let length = s.len();
        let first = match memchr::memchr(COLON, s) {
            Some(i) => i,
            None => {
                proof {
                    lemma_absent_is_len(s@, COLON);
                }
                return None;
            },
        };
        proof {
            lemma_first_is_index(s@, COLON, first as int);
        }
        let after = slice_subrange(s, first + 1, length);
        let bar = match memchr::memchr(BAR, after) {
            Some(i) => first + 1 + i,
            None => {
                proof {
                    lemma_absent_is_len(after@, BAR);
                }
                return None;
            },
        };
        proof {
            lemma_first_is_index(after@, BAR, bar - first - 1);
        }
        let head = slice_subrange(s, 0, bar);
        let colon = match memchr::memrchr(COLON, head) {
            Some(i) => i,
            None => {
                assert(head@[first as int] == COLON);
                return None;
            },
        };
        proof {
            lemma_last_is_index(head@, COLON, colon as int);
        }
        let tail = slice_subrange(s, bar + 1, length);
        let end = match memchr::memchr(BAR, tail) {
            Some(i) => {
                proof {
                    lemma_first_is_index(tail@, BAR, i as int);
                }
                bar + 1 + i
            },
            None => {
                proof {
                    lemma_absent_is_len(tail@, BAR);
                }
                length
            },
        };
        assert(s@[colon as int] == head@[colon as int]);
        assert(s@[bar as int] == after@[bar - first - 1]);
        let pdu = StatsdPDU {
            underlying: line,
            value_index: colon + 1,
            type_index: bar + 1,
            type_index_end: end,
        };
        proof {
            let l = split_line(s@)->0;
            assert(pdu@.name =~= l.name);
            assert(pdu@.value =~= l.value);
            assert(pdu@.kind =~= l.kind);
            assert(pdu@.trailer =~= l.trailer);
        }
        Some(pdu)
    }

    /// The metric name.
    pub fn name(&self) -> (r: &[u8])
        ensures
            r@ == self@.name,
    {
        proof {
            use_type_invariant(self);
        }
        slice_subrange(self.underlying.as_ref(), 0, self.value_index - 1)
    }

    /// The value, as sent.
    pub fn value(&self) -> (r: &[u8])
        ensures
            r@ == self@.value,
    {
        proof {
            use_type_invariant(self);
        }
        slice_subrange(self.underlying.as_ref(), self.value_index, self.type_index - 1)
    }

    /// The metric type.
    pub fn pdu_type(&self) -> (r: &[u8])
        ensures
            r@ == self@.kind,
    {
        proof {
            use_type_invariant(self);
        }
        slice_subrange(self.underlying.as_ref(), self.type_index, self.type_index_end)
    }

    /// The number of bytes of the whole line.
    pub fn len(&self) -> (r: usize)
        ensures
            r == self@.wire().len(),
    {
        proof {
            use_type_invariant(self);
            assert(self@.wire() =~= bytes_of(self.underlying));
        }
        self.underlying.len()
    }

    /// The whole line, without a line ending.
    pub fn as_bytes(&self) -> (r: &[u8])
        ensures
            r@ == self@.wire(),
    {
        proof {
            use_type_invariant(self);
            assert(self@.wire() =~= bytes_of(self.underlying));
        }
        self.underlying.as_ref()
    }

    /// Another handle onto the same line. Nothing is copied.
    pub fn duplicate(&self) -> (r: StatsdPDU)
        ensures
            r@ == self@,
    {
        proof {
            use_type_invariant(self);
        }
        StatsdPDU {
            underlying: self.underlying.clone(),
            value_index: self.value_index,
            type_index: self.type_index,
            type_index_end: self.type_index_end,
        }
    }

    /// The line with `prefix` put before its name and `suffix` after it; the
    /// value, the type and what follows are kept. With both empty the result
    /// shares the bytes of `self` and nothing is allocated.
    ///
    /// The rewritten line has to fit in one allocation.
    pub fn with_prefix_suffix(&self, prefix: &[u8], suffix: &[u8]) -> (r: StatsdPDU)
        requires
            self@.wire().len() + prefix@.len() + suffix@.len() <= isize::MAX,
        ensures
            r@ == self@.with_affixes(prefix@, suffix@),
    {
        proof {
            use_type_invariant(self);
        }
        let ghost b = bytes_of(self.underlying);
        assert(self@.wire() =~= b);
        if prefix.len() == 0 && suffix.len() == 0 {
            let r = self.duplicate();
            assert(r@.name =~= prefix@ + self@.name + suffix@);
            return r;
        }
        let offset = prefix.len() + suffix.len();
        let whole = self.underlying.as_ref();
        let mut buf = BytesMut::with_capacity(whole.len() + offset);
        buf.extend_from_slice(prefix);
        buf.extend_from_slice(slice_subrange(whole, 0, self.value_index - 1));
        buf.extend_from_slice(suffix);
        buf.extend_from_slice(slice_subrange(whole, self.value_index - 1, whole.len()));
        let underlying = buf.freeze();
        let ghost nb = bytes_of(underlying);
        assert(nb =~= prefix@ + b.take(self.value_index - 1) + suffix@ + b.skip(
            self.value_index - 1,
        ));
        let r = StatsdPDU {
            underlying,
            value_index: self.value_index + offset,
            type_index: self.type_index + offset,
            type_index_end: self.type_index_end + offset,
        };
        proof {
            let want = self@.with_affixes(prefix@, suffix@);
            assert(r@.name =~= want.name);
            assert(r@.value =~= want.value);
            assert(r@.kind =~= want.kind);
            assert(r@.trailer =~= want.trailer);
        }
        r
    }
}

impl Clone for StatsdPDU {
    fn clone(&self) -> (r: StatsdPDU)
        ensures
            r@ == self@,
    {
        self.duplicate()
    }
}

} // verus!
