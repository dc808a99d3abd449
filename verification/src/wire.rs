//! The binary wire at the byte level: base-128 varints, the
//! length-prefixed message frame, and the tagged binary forms of the
//! entities the binary transport carries. A string travels as its length
//! in bytes followed by one varint per character code point; an instant
//! travels as its two integers, exactly as the wire demands. Every
//! encoder's contract states the round trip: parsing its output at the
//! position it was written yields the encoded value back.
use vstd::prelude::*;

use crate::model::GetTaskGrpcRequest;
use crate::model::GetTaskGrpcRequestV;
use crate::model::Timestamp;
use vstd::string::StrSliceExecFns;

verus! {

/// The little-endian base-128 bytes of a value: seven bits per byte, the
/// high bit marking continuation.
pub open spec fn spec_varint(n: nat) -> Seq<u8>
    decreases n,
{
    if n < 128 {
        seq![n as u8]
    } else {
        seq![(128 + (n % 128)) as u8] + spec_varint(n / 128)
    }
}

/// The value read as a varint at a position, and the position after it.
pub open spec fn spec_parse_varint(b: Seq<u8>, pos: int) -> Option<(nat, int)>
    decreases b.len() - pos,
{
    if pos < 0 || pos >= b.len() {
        None
    } else if b[pos] < 128 {
        Some((b[pos] as nat, pos + 1))
    } else {
        match spec_parse_varint(b, pos + 1) {
            Some((v, end)) => Some(((b[pos] - 128) as nat + 128 * v, end)),
            None => None,
        }
    }
}

/// Parsing a varint where one was written yields the written value, in
/// any surrounding buffer.
pub proof fn lemma_varint_round_trip(b: Seq<u8>, pos: int, n: nat)
    requires
        0 <= pos,
        pos + spec_varint(n).len() <= b.len(),
        b.subrange(pos, pos + spec_varint(n).len()) == spec_varint(n),
    ensures
        spec_parse_varint(b, pos) == Some((n, pos + spec_varint(n).len())),
    decreases n,
{
    let e = spec_varint(n);
    assert(b[pos] == e[0]);
    if n < 128 {
        assert(e =~= seq![n as u8]);
    } else {
        assert(e[0] == 128 + (n % 128));
        let rest = spec_varint(n / 128);
        assert(e =~= seq![(128 + (n % 128)) as u8] + rest);
        assert forall|k: int| 0 <= k < rest.len() implies b[pos + 1 + k] == rest[k] by {
            assert(b.subrange(pos, pos + e.len() as int)[k + 1] == e[k + 1]);
        }
        assert(b.subrange(pos + 1, pos + 1 + rest.len() as int) =~= rest);
        lemma_varint_round_trip(b, pos + 1, n / 128);
        assert((b[pos] - 128) as nat + 128 * (n / 128) == n) by (nonlinear_arith)
            requires
                b[pos] == 128 + (n % 128),
                n >= 128,
        ;
    }
}

/// A parsed varint sits strictly inside the buffer and moves forward.
pub proof fn lemma_parse_varint_bounds(b: Seq<u8>, pos: int)
    ensures
        match spec_parse_varint(b, pos) {
            Some((v, end)) => pos < end <= b.len(),
            None => true,
        },
    decreases b.len() - pos,
{
    if 0 <= pos < b.len() && b[pos] >= 128 {
        lemma_parse_varint_bounds(b, pos + 1);
    }
}

/// Appends the varint of a value.
pub fn write_varint(n: u64, out: &mut Vec<u8>)
    ensures
        final(out)@ == old(out)@ + spec_varint(n as nat),
    decreases n,
{
    if n < 128 {
        out.push(n as u8);
        proof {
            assert(out@ =~= old(out)@ + spec_varint(n as nat));
        }
    } else {
        out.push((128 + (n % 128)) as u8);
        write_varint(n / 128, out);
        proof {
            assert(out@ =~= old(out)@ + spec_varint(n as nat));
        }
    }
}

/// Reads a varint. Yields the value exactly when one is written there
/// and it fits in 64 bits.
pub fn read_varint(b: &[u8], pos: usize) -> (r: Option<(u64, usize)>)
    requires
        pos <= b@.len(),
    ensures
        match r {
            Some((v, end)) => spec_parse_varint(b@, pos as int) == Some((v as nat, end as int))
                && pos < end <= b@.len(),
            None => match spec_parse_varint(b@, pos as int) {
                Some((v, _)) => v > u64::MAX,
                None => true,
            },
        },
    decreases b@.len() - pos,
{
    if pos >= b.len() {
        return None;
    }
    let byte = b[pos];
    if byte < 128 {
        Some((byte as u64, pos + 1))
    } else {
        match read_varint(b, pos + 1) {
            Some((v, end)) => {
                let low = (byte - 128) as u64;
                if v <= (u64::MAX - low) / 128 {
                    proof {
                        assert(low + 128 * (v as nat) <= u64::MAX) by (nonlinear_arith)
                            requires
                                v <= (u64::MAX - low) / 128,
                                0 <= low < 128,
                                v >= 0,
                        ;
                    }
                    Some((low + 128 * v, end))
                } else {
                    proof {
                        assert(low + 128 * (v as nat) > u64::MAX) by (nonlinear_arith)
                            requires
                                v > (u64::MAX - low) / 128,
                                0 <= low < 128,
                        ;
                    }
                    None
                }
            },
            None => {
                proof {
                    lemma_parse_varint_bounds(b@, pos + 1);
                    match spec_parse_varint(b@, pos + 1) {
                        Some((v, _)) => {
                            assert((byte - 128) as nat + 128 * v > u64::MAX) by (nonlinear_arith)
                                requires
                                    v > u64::MAX,
                                    byte >= 128,
                            ;
                        },
                        None => {
                        },
                    }
                }
                None
            },
        }
    }
}

/// The code points of a string's characters, in order.
pub open spec fn spec_char_codes(s: Seq<char>) -> Seq<nat>
    decreases s.len(),
{
    if s.len() == 0 {
        Seq::empty()
    } else {
        spec_char_codes(s.drop_last()).push((s.last() as u32) as nat)
    }
}

/// The bytes of a sequence of code points: one varint each, in order.
pub open spec fn spec_codes_bytes(codes: Seq<nat>) -> Seq<u8>
    decreases codes.len(),
{
    if codes.len() == 0 {
        Seq::empty()
    } else {
        spec_codes_bytes(codes.drop_last()) + spec_varint(codes.last())
    }
}

/// The binary form of a string field's payload: the characters' code
/// points as varints.
pub open spec fn spec_string_payload(s: Seq<char>) -> Seq<u8> {
    spec_codes_bytes(spec_char_codes(s))
}

/// The code points read from an exact byte range: varints until the range
/// is used up.
pub open spec fn spec_parse_codes(b: Seq<u8>, pos: int, end: int) -> Option<Seq<nat>>
    decreases end - pos,
{
    if pos == end {
        Some(Seq::empty())
    } else if pos > end || end > b.len() {
        None
    } else {
        match spec_parse_varint(b, pos) {
            Some((v, next)) => if pos < next <= end {
                match spec_parse_codes(b, next, end) {
                    Some(rest) => Some(seq![v] + rest),
                    None => None,
                }
            } else {
                None
            },
            None => None,
        }
    }
}

/// Code points written in order parse back in order, from any position.
pub proof fn lemma_codes_round_trip(b: Seq<u8>, pos: int, codes: Seq<nat>)
    requires
        0 <= pos,
        pos + spec_codes_bytes(codes).len() <= b.len(),
        b.subrange(pos, pos + spec_codes_bytes(codes).len()) == spec_codes_bytes(codes),
    ensures
        spec_parse_codes(b, pos, pos + spec_codes_bytes(codes).len()) == Some(codes),
    decreases codes.len(),
{
    if codes.len() == 0 {
        assert(codes =~= Seq::<nat>::empty());
    } else {
        let head = codes[0];
        let tail = codes.drop_first();
        lemma_codes_bytes_cons(codes);
        let hb = spec_varint(head);
        let tb = spec_codes_bytes(tail);
        let e = spec_codes_bytes(codes);
        assert(e == hb + tb);
        assert forall|k: int| 0 <= k < e.len() implies b[pos + k] == e[k] by {
            assert(b.subrange(pos, pos + e.len() as int)[k] == e[k]);
        }
        assert(b.subrange(pos, pos + hb.len() as int) =~= hb);
        lemma_varint_round_trip(b, pos, head);
        assert forall|k: int| 0 <= k < tb.len() implies b[pos + hb.len() + k] == tb[k] by {
            let j = hb.len() as int + k;
            assert(b[pos + j] == e[j]);
        }
        assert(b.subrange(pos + hb.len(), pos + hb.len() + tb.len()) =~= tb);
        lemma_codes_round_trip(b, pos + hb.len() as int, tail);
        assert(seq![head] + tail =~= codes);
    }
}

/// The bytes of a code list are its head's varint before its tail's
/// bytes.
proof fn lemma_codes_bytes_cons(codes: Seq<nat>)
    requires
        codes.len() > 0,
    ensures
        spec_codes_bytes(codes) == spec_varint(codes[0]) + spec_codes_bytes(codes.drop_first()),
    decreases codes.len(),
{
    if codes.len() == 1 {
        assert(codes.drop_last() =~= Seq::<nat>::empty());
        assert(codes.drop_first() =~= Seq::<nat>::empty());
        assert(spec_codes_bytes(codes) =~= spec_varint(codes[0]) + spec_codes_bytes(
            codes.drop_first(),
        ));
    } else {
        lemma_codes_bytes_cons(codes.drop_last());
        assert(codes.drop_last()[0] == codes[0]);
        assert(codes.drop_last().drop_first() =~= codes.drop_first().drop_last());
        assert(codes.drop_first().last() == codes.last());
        assert(spec_codes_bytes(codes) =~= spec_varint(codes[0]) + spec_codes_bytes(
            codes.drop_first(),
        ));
    }
}

/// Appends a string's code points as varints.
pub fn write_string_payload(s: &str, out: &mut Vec<u8>)
    ensures
        final(out)@ == old(out)@ + spec_string_payload(s@),
{
    let n = s.unicode_len();
    let mut i: usize = 0;
    proof {
        assert(s@.subrange(0, 0) =~= Seq::<char>::empty());
        assert(out@ =~= old(out)@ + spec_string_payload(s@.subrange(0, 0)));
    }
    while i < n
        invariant
            n == s@.len(),
            i <= n,
            out@ == old(out)@ + spec_string_payload(s@.subrange(0, i as int)),
        decreases n - i,
    {
        let c = s.get_char(i);
        write_varint((c as u32) as u64, out);
        proof {
            let pre = s@.subrange(0, i as int);
            let cur = s@.subrange(0, i + 1 as int);
            assert(cur.drop_last() =~= pre);
            assert(cur.last() == s@[i as int]);
            assert(((c as u32) as u64) as nat == (c as u32) as nat);
            assert(spec_char_codes(cur).drop_last() =~= spec_char_codes(pre));
            assert(out@ =~= old(out)@ + spec_string_payload(cur));
        }
        i += 1;
    }
    proof {
        assert(s@.subrange(0, n as int) =~= s@);
    }
}

/// Reads a string payload from an exact byte range: the characters whose
/// code points are written there.
pub fn read_string_payload(b: &[u8], pos: usize, end: usize) -> (r: Option<String>)
    requires
        pos <= end <= b@.len(),
    ensures
        match r {
            Some(s) => spec_parse_codes(b@, pos as int, end as int) == Some(spec_char_codes(s@)),
            None => true,
        },
{
    let mut cs: Vec<char> = Vec::new();
    let mut i = pos;
    proof {
        assert(spec_char_codes(cs@) =~= Seq::<nat>::empty());
        assert forall|stop: int|
            pos <= stop <= b@.len() implies #[trigger] spec_parse_codes(b@, pos as int, stop)
                == spec_codes_concat(
                spec_parse_codes(b@, pos as int, pos as int),
                spec_parse_codes(b@, pos as int, stop),
            ) by {
            match spec_parse_codes(b@, pos as int, stop) {
                Some(r) => {
                    assert(Seq::<nat>::empty() + r =~= r);
                },
                None => {
                },
            }
        }
    }
    while i < end
        invariant
            pos <= i <= end <= b@.len(),
            spec_parse_codes(b@, pos as int, i as int) == Some(spec_char_codes(cs@)),
            spec_parse_codes_prefix_ok(b@, pos as int, i as int),
        decreases end - i,
    {
        let (v, next) = match read_varint(b, i) {
            Some(p) => p,
            None => {
                return None;
            },
        };
        if next > end {
            return None;
        }
        if v > 0x10FFFF {
            return None;
        }
        let c = match char::from_u32(v as u32) {
            Some(c) => c,
            None => {
                return None;
            },
        };
        let ghost pre = cs@;
        cs.push(c);
        proof {
            assert(c as u32 == v as u32);
            assert(v as u32 as nat == v as nat) by (bit_vector)
                requires
                    v <= 0x10FFFFu64,
            ;
            assert((c as u32) as nat == v as nat);
            assert(cs@.drop_last() =~= pre);
            assert(spec_char_codes(cs@) =~= spec_char_codes(pre).push((c as u32) as nat));
            lemma_parse_codes_extend(b@, pos as int, i as int, next as int, v as nat);
        }
        i = next;
    }
    Some(crate::jsontext::string_from_chars(&cs))
}

/// Joins two partial reads: both must succeed.
pub open spec fn spec_codes_concat(head: Option<Seq<nat>>, rest: Option<Seq<nat>>) -> Option<
    Seq<nat>,
> {
    match (head, rest) {
        (Some(h), Some(r)) => Some(h + r),
        _ => None,
    }
}

/// Whether a code range has been read consistently so far; parsing from
/// `from` to any extension point factors through `mid`.
pub open spec fn spec_parse_codes_prefix_ok(b: Seq<u8>, from: int, mid: int) -> bool {
    forall|stop: int|
        mid <= stop <= b.len() ==> #[trigger] spec_parse_codes(b, from, stop)
            == spec_codes_concat(spec_parse_codes(b, from, mid), spec_parse_codes(b, mid, stop))
}

/// Extending a consistent read by one parsed varint keeps it consistent.
proof fn lemma_parse_codes_extend(b: Seq<u8>, from: int, mid: int, next: int, v: nat)
    requires
        0 <= from <= mid <= next <= b.len(),
        spec_parse_codes_prefix_ok(b, from, mid),
        spec_parse_varint(b, mid) == Some((v, next)),
        spec_parse_codes(b, from, mid) matches Some(head),
    ensures
        spec_parse_codes(b, from, next) == Some(
            spec_parse_codes(b, from, mid)->0.push(v),
        ),
        spec_parse_codes_prefix_ok(b, from, next),
{
    let head = spec_parse_codes(b, from, mid)->0;
    lemma_parse_varint_bounds(b, mid);
    assert(spec_parse_codes(b, mid, next) == Some(seq![v])) by {
        assert(spec_parse_codes(b, next, next) == Some(Seq::<nat>::empty()));
        assert(seq![v] + Seq::<nat>::empty() =~= seq![v]);
    }
    assert(head + seq![v] =~= head.push(v));
    assert forall|stop: int|
        next <= stop <= b.len() implies #[trigger] spec_parse_codes(b, from, stop)
            == spec_codes_concat(
            spec_parse_codes(b, from, next),
            spec_parse_codes(b, next, stop),
        ) by {
        assert(spec_parse_codes(b, mid, stop) == spec_codes_concat(
            Some(seq![v]),
            spec_parse_codes(b, next, stop),
        )) by {
            lemma_parse_varint_bounds(b, mid);
            lemma_parse_codes_factor_step(b, mid, next, stop, v);
        }
        match spec_parse_codes(b, next, stop) {
            Some(rest) => {
                assert(head + (seq![v] + rest) =~= head.push(v) + rest);
            },
            None => {
            },
        }
    }
}

/// Reading a range that opens with one varint factors through it.
proof fn lemma_parse_codes_factor_step(b: Seq<u8>, mid: int, next: int, stop: int, v: nat)
    requires
        0 <= mid < next <= stop <= b.len(),
        spec_parse_varint(b, mid) == Some((v, next)),
    ensures
        spec_parse_codes(b, mid, stop) == spec_codes_concat(
            Some(seq![v]),
            spec_parse_codes(b, next, stop),
        ),
{
    match spec_parse_codes(b, next, stop) {
        Some(rest) => {
            assert(spec_parse_codes(b, mid, stop) == Some(seq![v] + rest));
        },
        None => {
        },
    }
}

/// Two strings with the same code points are the same string.
pub proof fn lemma_char_codes_injective(a: Seq<char>, b: Seq<char>)
    requires
        spec_char_codes(a) == spec_char_codes(b),
    ensures
        a == b,
    decreases a.len(),
{
    lemma_char_codes_len(a);
    lemma_char_codes_len(b);
    if a.len() == 0 {
        assert(a =~= b);
    } else {
        assert(spec_char_codes(a).last() == (a.last() as u32) as nat);
        assert(spec_char_codes(b).last() == (b.last() as u32) as nat);
        assert(spec_char_codes(a).drop_last() =~= spec_char_codes(a.drop_last()));
        assert(spec_char_codes(b).drop_last() =~= spec_char_codes(b.drop_last()));
        lemma_char_codes_injective(a.drop_last(), b.drop_last());
        assert((a.last() as u32) as nat == (b.last() as u32) as nat);
        assert(a.last() as u32 == b.last() as u32);
        vstd::utf8::char_u32_cast(a.last(), a.last() as u32);
        vstd::utf8::char_u32_cast(b.last(), b.last() as u32);
        assert(a.last() == b.last());
        assert forall|i: int| 0 <= i < a.len() implies a[i] == b[i] by {
            if i < a.len() - 1 {
                assert(a.drop_last()[i] == b.drop_last()[i]);
            }
        }
        assert(a =~= b);
    }
}

/// A string has as many code points as characters.
pub proof fn lemma_char_codes_len(s: Seq<char>)
    ensures
        spec_char_codes(s).len() == s.len(),
        forall|i: int|
            0 <= i < s.len() ==> spec_char_codes(s)[i] == ((#[trigger] s[i]) as u32) as nat,
    decreases s.len(),
{
    if s.len() > 0 {
        lemma_char_codes_len(s.drop_last());
        assert forall|i: int| 0 <= i < s.len() implies spec_char_codes(s)[i] == ((
        #[trigger] s[i]) as u32) as nat by {
            if i < s.len() - 1 {
                assert(spec_char_codes(s)[i] == spec_char_codes(s.drop_last())[i]);
                assert(s.drop_last()[i] == s[i]);
            } else {
                assert(spec_char_codes(s)[i] == (s.last() as u32) as nat);
            }
        }
    }
}

/// The unsigned 64-bit pattern of a signed value.
pub open spec fn spec_u64_of_i64(n: int) -> nat {
    if n >= 0 {
        n as nat
    } else {
        (n + 0x10000000000000000) as nat
    }
}

/// The signed value of an unsigned 64-bit pattern.
pub open spec fn spec_i64_of_u64(n: nat) -> int {
    if n < 0x8000000000000000 {
        n as int
    } else {
        n - 0x10000000000000000
    }
}

/// The 64-bit patterns of in-range values convert back.
pub proof fn lemma_i64_pattern_round_trip(n: int)
    requires
        i64::MIN <= n <= i64::MAX,
    ensures
        spec_i64_of_u64(spec_u64_of_i64(n)) == n,
        spec_u64_of_i64(n) <= u64::MAX,
{
}

/// The binary form of an instant: field 1 the seconds and field 2 the
/// nanoseconds, each a varint of its two's-complement pattern, zeroes
/// omitted.
pub open spec fn spec_timestamp_bytes(ts: Timestamp) -> Seq<u8> {
    (if ts.seconds != 0 {
        seq![8u8] + spec_varint(spec_u64_of_i64(ts.seconds as int))
    } else {
        Seq::empty()
    }) + (if ts.nanos != 0 {
        seq![16u8] + spec_varint(ts.nanos as nat)
    } else {
        Seq::empty()
    })
}

/// The instant read from an exact byte range.
pub open spec fn spec_parse_timestamp(b: Seq<u8>, pos: int, end: int) -> Option<Timestamp> {
    if pos == end {
        Some(Timestamp { seconds: 0, nanos: 0 })
    } else if pos < end <= b.len() && b[pos] == 8 {
        match spec_parse_varint(b, pos + 1) {
            Some((v, next)) => if v <= u64::MAX && spec_i64_of_u64(v) != 0 {
                if next == end {
                    Some(Timestamp { seconds: spec_i64_of_u64(v) as i64, nanos: 0 })
                } else if next < end && b[next] == 16 {
                    match spec_parse_varint(b, next + 1) {
                        Some((w, e2)) => if e2 == end && 0 < w <= 0x7fffffff {
                            Some(
                                Timestamp {
                                    seconds: spec_i64_of_u64(v) as i64,
                                    nanos: w as i32,
                                },
                            )
                        } else {
                            None
                        },
                        None => None,
                    }
                } else {
                    None
                }
            } else {
                None
            },
            None => None,
        }
    } else if pos < end <= b.len() && b[pos] == 16 {
        match spec_parse_varint(b, pos + 1) {
            Some((w, e2)) => if e2 == end && 0 < w <= 0x7fffffff {
                Some(Timestamp { seconds: 0, nanos: w as i32 })
            } else {
                None
            },
            None => None,
        }
    } else {
        None
    }
}

/// Encodes an instant. Parsing the appended bytes as an exact range
/// yields the instant back.
pub fn write_timestamp(ts: &Timestamp, out: &mut Vec<u8>)
    requires
        ts.wf(),
    ensures
        final(out)@ == old(out)@ + spec_timestamp_bytes(*ts),
        spec_parse_timestamp(
            final(out)@,
            old(out)@.len() as int,
            final(out)@.len() as int,
        ) == Some(*ts),
{
    let ghost base = out@;
    if ts.seconds != 0 {
        out.push(8);
        let pattern: u64 = if ts.seconds >= 0 {
            ts.seconds as u64
        } else {
            ((ts.seconds as i128) + 0x10000000000000000i128) as u64
        };
        proof {
            assert(pattern as nat == spec_u64_of_i64(ts.seconds as int));
        }
        write_varint(pattern, out);
    }
    let ghost mid = out@;
    if ts.nanos != 0 {
        out.push(16);
        write_varint(ts.nanos as u64, out);
    }
    proof {
        assert(out@ =~= base + spec_timestamp_bytes(*ts));
        let b = out@;
        let pos = base.len() as int;
        let end = b.len() as int;
        lemma_i64_pattern_round_trip(ts.seconds as int);
        if ts.seconds != 0 {
            let sv = spec_u64_of_i64(ts.seconds as int);
            assert(b[pos] == 8);
            assert(b.subrange(pos + 1, pos + 1 + spec_varint(sv).len()) =~= spec_varint(sv));
            lemma_varint_round_trip(b, pos + 1, sv);
            if ts.nanos != 0 {
                let next = pos + 1 + spec_varint(sv).len() as int;
                assert(b[next] == 16);
                assert(b.subrange(next + 1, next + 1 + spec_varint(ts.nanos as nat).len())
                    =~= spec_varint(ts.nanos as nat));
                lemma_varint_round_trip(b, next + 1, ts.nanos as nat);
            }
        } else {
            if ts.nanos != 0 {
                assert(b[pos] == 16);
                assert(b.subrange(pos + 1, pos + 1 + spec_varint(ts.nanos as nat).len())
                    =~= spec_varint(ts.nanos as nat));
                lemma_varint_round_trip(b, pos + 1, ts.nanos as nat);
            }
        }
        assert(spec_parse_timestamp(b, pos, end) == Some(*ts));
    }
}

/// Decodes an instant from an exact byte range.
pub fn read_timestamp(b: &[u8], pos: usize, end: usize) -> (r: Option<Timestamp>)
    requires
        pos <= end <= b@.len(),
    ensures
        r == spec_parse_timestamp(b@, pos as int, end as int),
{
    if pos == end {
        return Some(Timestamp { seconds: 0, nanos: 0 });
    }
    if b[pos] == 8 {
        let (v, next) = match read_varint(b, pos + 1) {
            Some(p) => p,
            None => {
                proof {
                    lemma_parse_varint_bounds(b@, pos + 1);
                }
                return None;
            },
        };
        let seconds: i64 = if v < 0x8000000000000000u64 {
            v as i64
        } else {
            ((v as i128) - 0x10000000000000000i128) as i64
        };
        proof {
            assert(spec_i64_of_u64(v as nat) == seconds as int);
        }
        if seconds == 0 {
            return None;
        }
        if next == end {
            return Some(Timestamp { seconds, nanos: 0 });
        }
        if next < end && b[next] == 16 {
            let (w, e2) = match read_varint(b, next + 1) {
                Some(p) => p,
                None => {
                    proof {
                        lemma_parse_varint_bounds(b@, next + 1);
                    }
                    return None;
                },
            };
            if e2 == end && 0 < w && w <= 0x7fffffff {
                return Some(Timestamp { seconds, nanos: w as i32 });
            }
            return None;
        }
        return None;
    }
    if b[pos] == 16 {
        let (w, e2) = match read_varint(b, pos + 1) {
            Some(p) => p,
            None => {
                proof {
                    lemma_parse_varint_bounds(b@, pos + 1);
                }
                return None;
            },
        };
        if e2 == end && 0 < w && w <= 0x7fffffff {
            return Some(Timestamp { seconds: 0, nanos: w as i32 });
        }
        return None;
    }
    None
}

/// The unsigned 32-bit pattern of a signed value.
pub open spec fn spec_u32_of_i32(n: int) -> nat {
    if n >= 0 {
        n as nat
    } else {
        (n + 0x100000000) as nat
    }
}

/// The signed value of an unsigned 32-bit pattern.
pub open spec fn spec_i32_of_u32(n: nat) -> int {
    if n < 0x80000000 {
        n as int
    } else {
        n - 0x100000000
    }
}

/// The binary form of a task read request: field 1 the resource name as a
/// length-delimited string, omitted when empty; field 2 the advisory
/// history length as a varint of its 32-bit pattern, present exactly when
/// the field is set.
pub open spec fn spec_get_task_bytes(name: Seq<char>, history_length: Option<int>) -> Seq<u8> {
    (if name.len() != 0 {
        seq![10u8] + spec_varint(spec_string_payload(name).len() as nat) + spec_string_payload(
            name,
        )
    } else {
        Seq::empty()
    }) + (match history_length {
        Some(h) => seq![16u8] + spec_varint(spec_u32_of_i32(h)),
        None => Seq::empty(),
    })
}

/// The history-length tail of a request, read from an exact byte range.
pub open spec fn spec_parse_get_task_tail(b: Seq<u8>, pos: int, end: int) -> Option<Option<int>> {
    if pos == end {
        Some(None)
    } else if pos < end <= b.len() && b[pos] == 16 {
        match spec_parse_varint(b, pos + 1) {
            Some((w, e2)) => if e2 == end && w <= u32::MAX {
                Some(Some(spec_i32_of_u32(w)))
            } else {
                None
            },
            None => None,
        }
    } else {
        None
    }
}

/// The task read request denoted by an exact byte range: the name's code
/// points and the advisory history length.
pub open spec fn spec_parse_get_task(b: Seq<u8>, pos: int, end: int) -> Option<
    (Seq<nat>, Option<int>),
> {
    if pos == end {
        Some((Seq::empty(), None))
    } else if pos < end <= b.len() && b[pos] == 10 {
        match spec_parse_varint(b, pos + 1) {
            Some((len, start)) => if start + len <= end {
                match spec_parse_codes(b, start, start + len) {
                    Some(codes) => match spec_parse_get_task_tail(b, start + len, end) {
                        Some(hl) => Some((codes, hl)),
                        None => None,
                    },
                    None => None,
                }
            } else {
                None
            },
            None => None,
        }
    } else {
        match spec_parse_get_task_tail(b, pos, end) {
            Some(hl) => Some((Seq::empty(), hl)),
            None => None,
        }
    }
}

/// Encodes a task read request for the binary wire. Parsing the appended
/// bytes as an exact range yields the name's code points and the history
/// length back.
pub fn write_get_task(q: &GetTaskGrpcRequest, out: &mut Vec<u8>)
    ensures
        final(out)@ == old(out)@ + spec_get_task_bytes(q@.name, q@.history_length),
        spec_parse_get_task(final(out)@, old(out)@.len() as int, final(out)@.len() as int)
            == Some((spec_char_codes(q@.name), q@.history_length)),
{
    let ghost base = out@;
    let mut payload: Vec<u8> = Vec::new();
    write_string_payload(q.name.as_str(), &mut payload);
    let has_name = q.name.as_str().unicode_len() > 0;
    if has_name {
        out.push(10);
        write_varint(payload.len() as u64, &mut *out);
        let ghost plen = payload@.len();
        out.append(&mut payload);
        proof {
            assert(out@ =~= base + seq![10u8] + spec_varint(plen as nat) + spec_string_payload(
                q@.name,
            ));
        }
    } else {
        proof {
            lemma_char_codes_len(q@.name);
            assert(spec_char_codes(q@.name) =~= Seq::<nat>::empty());
            assert(spec_string_payload(q@.name) =~= Seq::<u8>::empty());
        }
    }
    let ghost mid = out@;
    match q.history_length {
        Some(h) => {
            out.push(16);
            let pattern: u64 = if h >= 0 {
                h as u64
            } else {
                ((h as i64) + 0x100000000i64) as u64
            };
            proof {
                assert(pattern as nat == spec_u32_of_i32(h as int));
            }
            write_varint(pattern, out);
        },
        None => {
        },
    }
    proof {
        let b = out@;
        let pos = base.len() as int;
        let end = b.len() as int;
        assert(b =~= base + spec_get_task_bytes(q@.name, q@.history_length));
        let payload_bytes = spec_string_payload(q@.name);
        let tail_pos: int = if q@.name.len() != 0 {
            pos + 1 + spec_varint(payload_bytes.len() as nat).len() + payload_bytes.len()
        } else {
            pos
        };
        if q@.name.len() != 0 {
            assert(b[pos] == 10);
            let lenv = spec_varint(payload_bytes.len() as nat);
            assert(b.subrange(pos + 1, pos + 1 + lenv.len()) =~= lenv);
            lemma_varint_round_trip(b, pos + 1, payload_bytes.len() as nat);
            let start = pos + 1 + lenv.len() as int;
            assert(b.subrange(start, start + payload_bytes.len()) =~= payload_bytes);
            lemma_codes_round_trip(b, start, spec_char_codes(q@.name));
            lemma_char_codes_len(q@.name);
        }
        match q@.history_length {
            Some(h) => {
                assert(b[tail_pos] == 16);
                let hv = spec_varint(spec_u32_of_i32(h));
                assert(b.subrange(tail_pos + 1, tail_pos + 1 + hv.len()) =~= hv);
                lemma_varint_round_trip(b, tail_pos + 1, spec_u32_of_i32(h));
                assert(spec_i32_of_u32(spec_u32_of_i32(h)) == h);
                assert(spec_parse_get_task_tail(b, tail_pos, end) == Some(Some(h)));
            },
            None => {
                assert(tail_pos == end);
            },
        }
        assert(spec_parse_get_task(b, pos, end) == Some(
            (spec_char_codes(q@.name), q@.history_length),
        ));
    }
}

/// Decodes a task read request from an exact byte range.
pub fn read_get_task(b: &[u8], pos: usize, end: usize) -> (r: Option<GetTaskGrpcRequest>)
    requires
        pos <= end <= b@.len(),
    ensures
        match r {
            Some(q) => spec_parse_get_task(b@, pos as int, end as int) == Some(
                (spec_char_codes(q@.name), q@.history_length),
            ),
            None => true,
        },
{
    if pos == end {
        proof {
            assert(spec_char_codes(Seq::<char>::empty()) =~= Seq::<nat>::empty());
        }
        return Some(GetTaskGrpcRequest { name: String::new(), history_length: None });
    }
    if b[pos] == 10 {
        let (len, start) = match read_varint(b, pos + 1) {
            Some(p) => p,
            None => {
                return None;
            },
        };
        if start > end || len > (end - start) as u64 {
            return None;
        }
        let fin = start + (len as usize);
        let name = match read_string_payload(b, start, fin) {
            Some(s) => s,
            None => {
                return None;
            },
        };
        let history_length = match read_get_task_tail(b, fin, end) {
            Some(hl) => hl,
            None => {
                return None;
            },
        };
        return Some(GetTaskGrpcRequest { name, history_length });
    }
    match read_get_task_tail(b, pos, end) {
        Some(hl) => {
            proof {
                assert(spec_char_codes(Seq::<char>::empty()) =~= Seq::<nat>::empty());
            }
            Some(GetTaskGrpcRequest { name: String::new(), history_length: hl })
        },
        None => None,
    }
}

/// Decodes the history-length tail from an exact byte range.
fn read_get_task_tail(b: &[u8], pos: usize, end: usize) -> (r: Option<Option<i32>>)
    requires
        pos <= end <= b@.len(),
    ensures
        match r {
            Some(hl) => spec_parse_get_task_tail(b@, pos as int, end as int) == Some(
                match hl {
                    Some(h) => Some(h as int),
                    None => None,
                },
            ),
            None => true,
        },
{
    if pos == end {
        return Some(None);
    }
    if b[pos] != 16 {
        return None;
    }
    let (w, e2) = match read_varint(b, pos + 1) {
        Some(p) => p,
        None => {
            return None;
        },
    };
    if e2 != end || w > 0xffffffffu64 {
        return None;
    }
    let h: i32 = if w < 0x80000000u64 {
        w as i32
    } else {
        ((w as i64) - 0x100000000i64) as i32
    };
    proof {
        assert(spec_i32_of_u32(w as nat) == h as int);
    }
    Some(Some(h))
}

/// Two requests whose names have the same code points and whose history
/// lengths agree are the same request: the binary form is lossless.
pub proof fn lemma_get_task_wire_lossless(a: GetTaskGrpcRequestV, b: GetTaskGrpcRequestV)
    requires
        spec_char_codes(a.name) == spec_char_codes(b.name),
        a.history_length == b.history_length,
    ensures
        a == b,
{
    lemma_char_codes_injective(a.name, b.name);
}

/// The length-prefixed frame of the binary transport: an uncompressed
/// marker byte, the payload length in four big-endian bytes, then the
/// payload.
pub open spec fn spec_frame(payload: Seq<u8>) -> Seq<u8> {
    seq![0u8, (payload.len() as nat / 0x1000000 % 256) as u8, (payload.len() as nat / 0x10000
        % 256) as u8, (payload.len() as nat / 0x100 % 256) as u8, (payload.len() as nat
        % 256) as u8] + payload
}

/// The payload framed at a position, when the frame is whole and
/// uncompressed.
pub open spec fn spec_parse_frame(b: Seq<u8>, pos: int) -> Option<(Seq<u8>, int)> {
    if pos < 0 || pos + 5 > b.len() || b[pos] != 0 {
        None
    } else {
        let len = (b[pos + 1] as int) * 0x1000000 + (b[pos + 2] as int) * 0x10000 + (b[pos
            + 3] as int) * 0x100 + (b[pos + 4] as int);
        if pos + 5 + len <= b.len() {
            Some((b.subrange(pos + 5, pos + 5 + len), pos + 5 + len))
        } else {
            None
        }
    }
}

/// Appends a frame around a payload. Parsing at the written position
/// yields the payload back.
pub fn write_frame(payload: &Vec<u8>, out: &mut Vec<u8>)
    requires
        payload@.len() <= 0xffffffff,
    ensures
        final(out)@ == old(out)@ + spec_frame(payload@),
        spec_parse_frame(final(out)@, old(out)@.len() as int) == Some(
            (payload@, final(out)@.len() as int),
        ),
{
    let ghost base = out@;
    let n = payload.len();
    out.push(0);
    out.push((n / 0x1000000 % 256) as u8);
    out.push((n / 0x10000 % 256) as u8);
    out.push((n / 0x100 % 256) as u8);
    out.push((n % 256) as u8);
    let mut body = Vec::new();
    let mut i: usize = 0;
    while i < n
        invariant
            n == payload@.len(),
            i <= n,
            body@ == payload@.subrange(0, i as int),
        decreases n - i,
    {
        body.push(payload[i]);
        proof {
            assert(body@ =~= payload@.subrange(0, i + 1 as int));
        }
        i += 1;
    }
    proof {
        assert(body@ =~= payload@);
    }
    out.append(&mut body);
    proof {
        let b = out@;
        let pos = base.len() as int;
        assert(b =~= base + spec_frame(payload@));
        let m = payload@.len() as int;
        assert((b[pos + 1] as int) * 0x1000000 + (b[pos + 2] as int) * 0x10000 + (b[pos
            + 3] as int) * 0x100 + (b[pos + 4] as int) == m) by (nonlinear_arith)
            requires
                b[pos + 1] as int == m / 0x1000000 % 256,
                b[pos + 2] as int == m / 0x10000 % 256,
                b[pos + 3] as int == m / 0x100 % 256,
                b[pos + 4] as int == m % 256,
                0 <= m <= 0xffffffff,
        ;
        assert(b.subrange(pos + 5, pos + 5 + m) =~= payload@);
    }
}

/// Reads a frame at a position: the framed payload and the position after
/// it.
pub fn read_frame(b: &[u8], pos: usize) -> (r: Option<(Vec<u8>, usize)>)
    requires
        pos <= b@.len(),
    ensures
        match r {
            Some((payload, end)) => spec_parse_frame(b@, pos as int) == Some(
                (payload@, end as int),
            ) && pos < end <= b@.len(),
            None => spec_parse_frame(b@, pos as int) is None,
        },
{
    if b.len() - pos < 5 {
        return None;
    }
    if b[pos] != 0 {
        return None;
    }
    let len: usize = (b[pos + 1] as usize) * 0x1000000 + (b[pos + 2] as usize) * 0x10000 + (b[pos
        + 3] as usize) * 0x100 + (b[pos + 4] as usize);
    if len > b.len() - (pos + 5) {
        return None;
    }
    let start = pos + 5;
    let fin = start + len;
    let mut payload: Vec<u8> = Vec::new();
    let mut i = start;
    proof {
        assert(payload@ =~= b@.subrange(start as int, start as int));
    }
    while i < fin
        invariant
            start <= i <= fin <= b@.len(),
            payload@ == b@.subrange(start as int, i as int),
        decreases fin - i,
    {
        payload.push(b[i]);
        proof {
            assert(payload@ =~= b@.subrange(start as int, i + 1 as int));
        }
        i += 1;
    }
    Some((payload, fin))
}

} // verus!
