//! The textual wire at the byte level: printing a free-form value as
//! canonical JSON text, and reading JSON text back. The printer is exact
//! against the grammar below; the reader accepts ASCII JSON with standard
//! escapes and is proved to yield well-formed values.
use vstd::prelude::*;

use crate::object::is_number_char;
use crate::object::jv_fields_view;
use crate::object::jv_seq_view;
use crate::object::lemma_jv_fields_view;
use crate::object::lemma_jv_seq_view;
use crate::object::JsonV;
use crate::object::JsonValue;
use crate::object::Object;
use vstd::string::StrSliceExecFns;

verus! {

/// Relies on std's FromIterator for String over chars: collecting
/// characters yields the string of exactly those characters in order.
#[verifier::external_body]
pub fn string_from_chars(cs: &Vec<char>) -> (r: String)
    ensures
        r@ == cs@,
{
    cs.iter().collect()
}

/// Whether a code point value denotes a char: not a surrogate, not above
/// the Unicode maximum.
pub open spec fn is_scalar_value(v: int) -> bool {
    (0 <= v < 0xD800) || (0xE000 <= v <= 0x10FFFF)
}

/// Relies on std's char::from_u32: `Some` exactly on Unicode scalar
/// values, and the char it returns has that value.
pub assume_specification[ std::primitive::char::from_u32 ](v: u32) -> (r: Option<char>)
    ensures
        match r {
            Some(c) => is_scalar_value(v as int) && c as u32 == v,
            None => !is_scalar_value(v as int),
        },
;

/// The bytes of a sequence of ASCII characters.
pub open spec fn ascii_of(s: Seq<char>) -> Seq<u8> {
    s.map_values(|c: char| c as u8)
}

/// The lowercase hexadecimal digit of a value below 16.
pub open spec fn spec_hex_digit(n: int) -> u8 {
    if n < 10 {
        (48 + n) as u8
    } else {
        (87 + n) as u8
    }
}

/// A four-digit escape `\uXXXX` of a value below 0x10000.
pub open spec fn spec_u_escape(u: int) -> Seq<u8> {
    seq![92u8, 117u8, spec_hex_digit(u / 4096 % 16), spec_hex_digit(u / 256 % 16), spec_hex_digit(
        u / 16 % 16,
    ), spec_hex_digit(u % 16)]
}

/// The JSON encoding of one character of a string: the two-character
/// escapes of the quote, backslash and the common controls; `\uXXXX` for
/// the other controls and everything outside printable ASCII, a surrogate
/// pair for the characters beyond the basic plane; the bare byte for the
/// printable ASCII rest.
pub open spec fn spec_esc_char(c: char) -> Seq<u8> {
    let u = c as int;
    if c == '"' {
        seq![92u8, 34u8]
    } else if c == '\\' {
        seq![92u8, 92u8]
    } else if c == '\n' {
        seq![92u8, 110u8]
    } else if c == '\r' {
        seq![92u8, 114u8]
    } else if c == '\t' {
        seq![92u8, 116u8]
    } else if u < 32 {
        spec_u_escape(u)
    } else if u < 127 {
        seq![u as u8]
    } else if u < 0x10000 {
        spec_u_escape(u)
    } else {
        spec_u_escape(0xD800 + (u - 0x10000) / 0x400) + spec_u_escape(
            0xDC00 + (u - 0x10000) % 0x400,
        )
    }
}

/// The JSON encoding of the characters of a string, without the quotes.
pub open spec fn spec_escape(s: Seq<char>) -> Seq<u8>
    decreases s.len(),
{
    if s.len() == 0 {
        Seq::empty()
    } else {
        spec_escape(s.drop_last()) + spec_esc_char(s.last())
    }
}

/// The canonical JSON text of a value: no whitespace, object fields in
/// their stored order, numbers as their literal text.
pub open spec fn spec_print(v: JsonV) -> Seq<u8>
    decreases v, 2int,
{
    match v {
        JsonV::Null => seq![110u8, 117u8, 108u8, 108u8],
        JsonV::Bool(b) => if b {
            seq![116u8, 114u8, 117u8, 101u8]
        } else {
            seq![102u8, 97u8, 108u8, 115u8, 101u8]
        },
        JsonV::Num(s) => ascii_of(s),
        JsonV::Str(s) => seq![34u8] + spec_escape(s) + seq![34u8],
        JsonV::Arr(items) => seq![91u8] + spec_print_items(items) + seq![93u8],
        JsonV::Obj(fields) => seq![123u8] + spec_print_fields(fields) + seq![125u8],
    }
}

/// The comma-separated texts of array elements.
pub open spec fn spec_print_items(items: Seq<JsonV>) -> Seq<u8>
    decreases items, 1int,
{
    if items.len() == 0 {
        Seq::empty()
    } else if items.len() == 1 {
        spec_print(items[0])
    } else {
        spec_print_items(items.drop_last()) + seq![44u8] + spec_print(items.last())
    }
}

/// The comma-separated `"key":value` texts of object fields.
pub open spec fn spec_print_fields(fields: Seq<(Seq<char>, JsonV)>) -> Seq<u8>
    decreases fields, 1int,
{
    if fields.len() == 0 {
        Seq::empty()
    } else if fields.len() == 1 {
        seq![34u8] + spec_escape(fields[0].0) + seq![34u8, 58u8] + spec_print(fields[0].1)
    } else {
        spec_print_fields(fields.drop_last()) + seq![44u8, 34u8] + spec_escape(fields.last().0)
            + seq![34u8, 58u8] + spec_print(fields.last().1)
    }
}

/// The lowercase hexadecimal digit of a value below 16.
fn hex_digit(n: u32) -> (r: u8)
    requires
        n < 16,
    ensures
        r == spec_hex_digit(n as int),
{
    if n < 10 {
        48 + (n as u8)
    } else {
        87 + (n as u8)
    }
}

/// Appends the `\uXXXX` escape of a value below 0x10000.
fn push_u_escape(u: u32, out: &mut Vec<u8>)
    requires
        u < 0x10000,
    ensures
        final(out)@ == old(out)@ + spec_u_escape(u as int),
{
    out.push(92);
    out.push(117);
    out.push(hex_digit(u / 4096 % 16));
    out.push(hex_digit(u / 256 % 16));
    out.push(hex_digit(u / 16 % 16));
    out.push(hex_digit(u % 16));
    proof {
        assert(out@ =~= old(out)@ + spec_u_escape(u as int));
    }
}

/// Appends the JSON encoding of one character.
fn push_esc_char(c: char, out: &mut Vec<u8>)
    ensures
        final(out)@ == old(out)@ + spec_esc_char(c),
{
    let u = c as u32;
    if c == '"' {
        out.push(92);
        out.push(34);
    } else if c == '\\' {
        out.push(92);
        out.push(92);
    } else if c == '\n' {
        out.push(92);
        out.push(110);
    } else if c == '\r' {
        out.push(92);
        out.push(114);
    } else if c == '\t' {
        out.push(92);
        out.push(116);
    } else if u < 32 {
        push_u_escape(u, out);
    } else if u < 127 {
        out.push(u as u8);
    } else if u < 0x10000 {
        push_u_escape(u, out);
    } else {
        push_u_escape((0xD800 + (u - 0x10000) / 0x400) as u32, out);
        push_u_escape((0xDC00 + (u - 0x10000) % 0x400) as u32, out);
    }
    proof {
        assert(out@ =~= old(out)@ + spec_esc_char(c));
    }
}

/// Appends the JSON encoding of a string's characters, without quotes.
fn push_escaped(s: &str, out: &mut Vec<u8>)
    ensures
        final(out)@ == old(out)@ + spec_escape(s@),
{
    let n = s.unicode_len();
    let mut i: usize = 0;
    while i < n
        invariant
            n == s@.len(),
            i <= n,
            out@ == old(out)@ + spec_escape(s@.subrange(0, i as int)),
        decreases n - i,
    {
        let c = s.get_char(i);
        push_esc_char(c, out);
        proof {
            assert(s@.subrange(0, i + 1 as int).drop_last() =~= s@.subrange(0, i as int));
            assert(s@.subrange(0, i + 1 as int).last() == s@[i as int]);
        }
        i += 1;
    }
    proof {
        assert(s@.subrange(0, n as int) =~= s@);
    }
}

/// Appends a quoted JSON string.
fn push_string(s: &str, out: &mut Vec<u8>)
    ensures
        final(out)@ == old(out)@ + seq![34u8] + spec_escape(s@) + seq![34u8],
{
    out.push(34);
    push_escaped(s, out);
    out.push(34);
    proof {
        assert(out@ =~= old(out)@ + seq![34u8] + spec_escape(s@) + seq![34u8]);
    }
}

/// Appends the canonical JSON text of a value.
pub fn print_value(v: &JsonValue, out: &mut Vec<u8>)
    ensures
        final(out)@ == old(out)@ + spec_print(v@),
    decreases *v,
{
    match v {
        JsonValue::Null => {
            out.push(110);
            out.push(117);
            out.push(108);
            out.push(108);
            proof {
                assert(out@ =~= old(out)@ + spec_print(v@));
            }
        },
        JsonValue::Bool(b) => {
            if *b {
                out.push(116);
                out.push(114);
                out.push(117);
                out.push(101);
            } else {
                out.push(102);
                out.push(97);
                out.push(108);
                out.push(115);
                out.push(101);
            }
            proof {
                assert(out@ =~= old(out)@ + spec_print(v@));
            }
        },
        JsonValue::Number(s) => {
            let st = s.as_str();
            let n = st.unicode_len();
            let mut i: usize = 0;
            while i < n
                invariant
                    n == st@.len(),
                    st@ == s@,
                    i <= n,
                    out@ == old(out)@ + ascii_of(st@.subrange(0, i as int)),
                decreases n - i,
            {
                let c = st.get_char(i);
                out.push(c as u8);
                proof {
                    assert(ascii_of(st@.subrange(0, i + 1 as int)) =~= ascii_of(
                        st@.subrange(0, i as int),
                    ) + seq![st@[i as int] as u8]);
                    assert(out@ =~= old(out)@ + ascii_of(st@.subrange(0, i + 1 as int)));
                }
                i += 1;
            }
            proof {
                assert(st@.subrange(0, n as int) =~= st@);
                assert(out@ =~= old(out)@ + spec_print(v@));
            }
        },
        JsonValue::Str(s) => {
            push_string(s.as_str(), out);
            proof {
                assert(out@ =~= old(out)@ + spec_print(v@));
            }
        },
        JsonValue::Array(items) => {
            proof {
                broadcast use lemma_jv_seq_view;

            }
            out.push(91);
            let ghost views = jv_seq_view(items@);
            let n = items.len();
            let mut i: usize = 0;
            while i < n
                invariant
                    n == items@.len(),
                    views == jv_seq_view(items@),
                    views.len() == n,
                    forall|k: int| 0 <= k < n ==> views[k] == crate::object::jv_view(items@[k]),
                    i <= n,
                    out@ == old(out)@ + seq![91u8] + spec_print_items(views.subrange(0, i as int)),
                    decreases_to!(*v => *items),
                decreases n - i,
            {
                proof {
                    assert(decreases_to!(*items => items@));
                    assert(decreases_to!(items@ => items@[i as int]));
                }
                if i > 0 {
                    out.push(44);
                }
                print_value(&items[i], out);
                proof {
                    let pre = views.subrange(0, i as int);
                    let cur = views.subrange(0, i + 1 as int);
                    assert(cur.drop_last() =~= pre);
                    assert(cur.last() == views[i as int]);
                    if i == 0 {
                        assert(cur =~= seq![views[0]]);
                        assert(spec_print_items(cur) == spec_print(views[0]));
                    }
                    assert(out@ =~= old(out)@ + seq![91u8] + spec_print_items(cur));
                }
                i += 1;
            }
            out.push(93);
            proof {
                assert(views.subrange(0, n as int) =~= views);
                assert(out@ =~= old(out)@ + spec_print(v@));
            }
        },
        JsonValue::Object(o) => {
            proof {
                broadcast use lemma_jv_fields_view;

                assert(decreases_to!(*v => *o));
                assert(decreases_to!(*o => o.fields));
            }
            out.push(123);
            let ghost views = jv_fields_view(o.fields@);
            let n = o.fields.len();
            let mut i: usize = 0;
            while i < n
                invariant
                    n == o.fields@.len(),
                    views == jv_fields_view(o.fields@),
                    views.len() == n,
                    forall|k: int|
                        0 <= k < n ==> views[k] == (
                        o.fields@[k].0@,
                        crate::object::jv_view(o.fields@[k].1),
                        ),
                    i <= n,
                    out@ == old(out)@ + seq![123u8] + spec_print_fields(
                        views.subrange(0, i as int),
                    ),
                    decreases_to!(*v => o.fields),
                decreases n - i,
            {
                proof {
                    assert(decreases_to!(o.fields => o.fields@));
                    assert(decreases_to!(o.fields@ => o.fields@[i as int]));
                    assert(decreases_to!(o.fields@[i as int] => o.fields@[i as int].1));
                }
                if i > 0 {
                    out.push(44);
                }
                push_string(o.fields[i].0.as_str(), out);
                out.push(58);
                print_value(&o.fields[i].1, out);
                proof {
                    let pre = views.subrange(0, i as int);
                    let cur = views.subrange(0, i + 1 as int);
                    assert(cur.drop_last() =~= pre);
                    assert(cur.last() == views[i as int]);
                    if i == 0 {
                        assert(cur =~= seq![views[0]]);
                    }
                    assert(out@ =~= old(out)@ + seq![123u8] + spec_print_fields(cur));
                }
                i += 1;
            }
            out.push(125);
            proof {
                assert(views.subrange(0, n as int) =~= views);
                assert(out@ =~= old(out)@ + spec_print(v@));
            }
        },
    }
}

/// The canonical JSON text of a value, as bytes.
pub fn to_json_text(v: &JsonValue) -> (r: Vec<u8>)
    ensures
        r@ == spec_print(v@),
{
    let mut out: Vec<u8> = Vec::new();
    print_value(v, &mut out);
    proof {
        assert(out@ =~= spec_print(v@));
    }
    out
}

/// JSON whitespace.
pub open spec fn is_ws(b: u8) -> bool {
    b == 32 || b == 9 || b == 10 || b == 13
}

/// A byte that may continue a number literal.
pub open spec fn is_number_byte(b: u8) -> bool {
    (48 <= b <= 57) || b == 45 || b == 43 || b == 46 || b == 101 || b == 69
}

/// The first position at or after `pos` holding a non-whitespace byte.
fn skip_ws(bytes: &[u8], pos: usize) -> (r: usize)
    requires
        pos <= bytes@.len(),
    ensures
        pos <= r <= bytes@.len(),
        r < bytes@.len() ==> !is_ws(bytes@[r as int]),
{
    let n = bytes.len();
    let mut i = pos;
    while i < n && (bytes[i] == 32 || bytes[i] == 9 || bytes[i] == 10 || bytes[i] == 13)
        invariant
            pos <= i <= n,
            n == bytes@.len(),
        decreases n - i,
    {
        i += 1;
    }
    i
}

/// The value of a hexadecimal digit byte, if it is one.
fn hex_val(b: u8) -> (r: Option<u32>)
    ensures
        r matches Some(v) ==> v < 16,
{
    if 48 <= b && b <= 57 {
        Some((b - 48) as u32)
    } else if 97 <= b && b <= 102 {
        Some((b - 87) as u32)
    } else if 65 <= b && b <= 70 {
        Some((b - 55) as u32)
    } else {
        None
    }
}

/// Reads the four hexadecimal digits of a `\u` escape.
fn parse_hex4(bytes: &[u8], pos: usize) -> (r: Option<(u32, usize)>)
    requires
        pos <= bytes@.len(),
    ensures
        r matches Some((v, end)) ==> v < 0x10000 && end == pos + 4 && end <= bytes@.len(),
{
    let n = bytes.len();
    if n - pos < 4 {
        return None;
    }
    let a = match hex_val(bytes[pos]) {
        Some(v) => v,
        None => {
            return None;
        },
    };
    let b = match hex_val(bytes[pos + 1]) {
        Some(v) => v,
        None => {
            return None;
        },
    };
    let c = match hex_val(bytes[pos + 2]) {
        Some(v) => v,
        None => {
            return None;
        },
    };
    let d = match hex_val(bytes[pos + 3]) {
        Some(v) => v,
        None => {
            return None;
        },
    };
    Some((a * 4096 + b * 256 + c * 16 + d, pos + 4))
}

/// Reads a quoted JSON string: ASCII bytes plus the standard escapes,
/// surrogate pairs included.
fn parse_string(bytes: &[u8], pos: usize) -> (r: Option<(String, usize)>)
    requires
        pos < bytes@.len(),
        bytes@[pos as int] == 34,
    ensures
        r matches Some((s, end)) ==> pos < end <= bytes@.len(),
{
    let n = bytes.len();
    let mut cs: Vec<char> = Vec::new();
    let mut i = pos + 1;
    loop
        invariant
            pos < i <= n,
            n == bytes@.len(),
        decreases n - i,
    {
        if i >= n {
            return None;
        }
        let b = bytes[i];
        if b == 34 {
            return Some((string_from_chars(&cs), i + 1));
        }
        if b == 92 {
            if i + 1 >= n {
                return None;
            }
            let e = bytes[i + 1];
            if e == 34 {
                cs.push('"');
                i += 2;
            } else if e == 92 {
                cs.push('\\');
                i += 2;
            } else if e == 47 {
                cs.push('/');
                i += 2;
            } else if e == 110 {
                cs.push('\n');
                i += 2;
            } else if e == 114 {
                cs.push('\r');
                i += 2;
            } else if e == 116 {
                cs.push('\t');
                i += 2;
            } else if e == 98 {
                match char::from_u32(8) {
                    Some(c) => {
                        cs.push(c);
                    },
                    None => {
                        return None;
                    },
                }
                i += 2;
            } else if e == 102 {
                match char::from_u32(12) {
                    Some(c) => {
                        cs.push(c);
                    },
                    None => {
                        return None;
                    },
                }
                i += 2;
            } else if e == 117 {
                let (u1, after1) = match parse_hex4(bytes, i + 2) {
                    Some(p) => p,
                    None => {
                        return None;
                    },
                };
                if 0xD800 <= u1 && u1 < 0xDC00 {
                    // A high surrogate: the low half must follow.
                    if n - after1 < 2 {
                        return None;
                    }
                    if bytes[after1] != 92 || bytes[after1 + 1] != 117 {
                        return None;
                    }
                    let (u2, after2) = match parse_hex4(bytes, after1 + 2) {
                        Some(p) => p,
                        None => {
                            return None;
                        },
                    };
                    if !(0xDC00 <= u2 && u2 < 0xE000) {
                        return None;
                    }
                    let combined = 0x10000 + (u1 - 0xD800) * 0x400 + (u2 - 0xDC00);
                    match char::from_u32(combined) {
                        Some(c) => {
                            cs.push(c);
                        },
                        None => {
                            return None;
                        },
                    }
                    i = after2;
                } else if 0xDC00 <= u1 && u1 < 0xE000 {
                    // A lone low surrogate denotes no character.
                    return None;
                } else {
                    match char::from_u32(u1) {
                        Some(c) => {
                            cs.push(c);
                        },
                        None => {
                            return None;
                        },
                    }
                    i = after1;
                }
            } else {
                return None;
            }
        } else if 32 <= b && b < 127 {
            cs.push(b as char);
            i += 1;
        } else {
            // A control byte or a byte outside ASCII: not accepted here.
            return None;
        }
    }
}

/// Reads a number literal: the maximal run of number bytes, kept as text.
fn parse_number(bytes: &[u8], pos: usize) -> (r: Option<(JsonValue, usize)>)
    requires
        pos < bytes@.len(),
        bytes@[pos as int] == 45 || 48 <= bytes@[pos as int] <= 57,
    ensures
        r matches Some((v, end)) ==> pos < end <= bytes@.len() && v@.wf(),
{
    let n = bytes.len();
    let mut cs: Vec<char> = Vec::new();
    let mut i = pos;
    while i < n && (bytes[i] == 45 || bytes[i] == 43 || bytes[i] == 46 || bytes[i] == 101
        || bytes[i] == 69 || (48 <= bytes[i] && bytes[i] <= 57))
        invariant
            pos <= i <= n,
            n == bytes@.len(),
            pos < n,
            bytes@[pos as int] == 45 || 48 <= bytes@[pos as int] <= 57,
            cs@.len() == i - pos,
            forall|k: int| 0 <= k < cs@.len() ==> is_number_char(#[trigger] cs@[k]),
            cs@.len() > 0 ==> (cs@[0] == '-' || '0' <= cs@[0] <= '9'),
            i > pos ==> cs@.len() > 0,
        decreases n - i,
    {
        let b = bytes[i];
        proof {
            if i == pos {
                assert(b == 45 || 48 <= b <= 57);
            }
            assert(48 <= b <= 57 ==> '0' <= (b as char) <= '9');
            assert(b == 45 ==> (b as char) == '-');
        }
        cs.push(b as char);
        i += 1;
    }
    if i == pos {
        return None;
    }
    let text = string_from_chars(&cs);
    let v = JsonValue::Number(text);
    proof {
        assert(crate::object::is_number_text(v@->Num_0));
    }
    Some((v, i))
}

/// Reads one JSON value starting exactly at `pos`. Accepts ASCII JSON
/// with standard escapes; whitespace may follow punctuation inside
/// containers. Every value it yields is well-formed.
pub fn parse_value(bytes: &[u8], pos: usize) -> (r: Option<(JsonValue, usize)>)
    requires
        pos <= bytes@.len(),
    ensures
        r matches Some((v, end)) ==> pos < end <= bytes@.len() && v@.wf(),
    decreases bytes@.len() - pos,
{
    proof {
        broadcast use lemma_jv_seq_view, lemma_jv_fields_view;

    }
    let n = bytes.len();
    if pos >= n {
        return None;
    }
    let b = bytes[pos];
    if b == 110 {
        // null
        if n - pos >= 4 && bytes[pos + 1] == 117 && bytes[pos + 2] == 108 && bytes[pos + 3] == 108 {
            Some((JsonValue::Null, pos + 4))
        } else {
            None
        }
    } else if b == 116 {
        // true
        if n - pos >= 4 && bytes[pos + 1] == 114 && bytes[pos + 2] == 117 && bytes[pos + 3] == 101 {
            Some((JsonValue::Bool(true), pos + 4))
        } else {
            None
        }
    } else if b == 102 {
        // false
        if n - pos >= 5 && bytes[pos + 1] == 97 && bytes[pos + 2] == 108 && bytes[pos + 3] == 115
            && bytes[pos + 4] == 101 {
            Some((JsonValue::Bool(false), pos + 5))
        } else {
            None
        }
    } else if b == 34 {
        match parse_string(bytes, pos) {
            Some((s, end)) => Some((JsonValue::Str(s), end)),
            None => None,
        }
    } else if b == 45 || (48 <= b && b <= 57) {
        parse_number(bytes, pos)
    } else if b == 91 {
        // array
        let mut items: Vec<JsonValue> = Vec::new();
        let mut cur = skip_ws(bytes, pos + 1);
        if cur < n && bytes[cur] == 93 {
            let v = JsonValue::Array(items);
            proof {
                lemma_jv_seq_view(items@);
                assert(v@.wf());
            }
            return Some((v, cur + 1));
        }
        loop
            invariant
                pos < cur <= n,
                n == bytes@.len(),
                forall|k: int|
                    0 <= k < items@.len() ==> (#[trigger] crate::object::jv_view(items@[k])).wf(),
            decreases n - cur,
        {
            let (v, e) = match parse_value(bytes, cur) {
                Some(p) => p,
                None => {
                    return None;
                },
            };
            items.push(v);
            let after = skip_ws(bytes, e);
            if after >= n {
                return None;
            }
            if bytes[after] == 93 {
                let v = JsonValue::Array(items);
                proof {
                    lemma_jv_seq_view(items@);
                    assert(v@.wf());
                }
                return Some((v, after + 1));
            }
            if bytes[after] != 44 {
                return None;
            }
            cur = skip_ws(bytes, after + 1);
        }
    } else if b == 123 {
        // object
        let mut fields: Vec<(String, JsonValue)> = Vec::new();
        let mut cur = skip_ws(bytes, pos + 1);
        if cur < n && bytes[cur] == 125 {
            let v = JsonValue::Object(Object { fields });
            proof {
                lemma_jv_fields_view(fields@);
                assert(v@.wf());
            }
            return Some((v, cur + 1));
        }
        loop
            invariant
                pos < cur <= n,
                n == bytes@.len(),
                forall|k: int|
                    0 <= k < fields@.len() ==> (#[trigger] crate::object::jv_view(
                        fields@[k].1,
                    )).wf(),
            decreases n - cur,
        {
            if cur >= n || bytes[cur] != 34 {
                return None;
            }
            let (key, after_key) = match parse_string(bytes, cur) {
                Some(p) => p,
                None => {
                    return None;
                },
            };
            let colon = skip_ws(bytes, after_key);
            if colon >= n || bytes[colon] != 58 {
                return None;
            }
            let vstart = skip_ws(bytes, colon + 1);
            let (v, e) = match parse_value(bytes, vstart) {
                Some(p) => p,
                None => {
                    return None;
                },
            };
            fields.push((key, v));
            let after = skip_ws(bytes, e);
            if after >= n {
                return None;
            }
            if bytes[after] == 125 {
                let v = JsonValue::Object(Object { fields });
                proof {
                    lemma_jv_fields_view(fields@);
                    assert(v@.wf());
                }
                return Some((v, after + 1));
            }
            if bytes[after] != 44 {
                return None;
            }
            cur = skip_ws(bytes, after + 1);
        }
    } else {
        None
    }
}

/// Reads a whole JSON text: one value, possibly surrounded by whitespace.
/// Every value it yields is well-formed.
pub fn from_json_text(bytes: &[u8]) -> (r: Option<JsonValue>)
    ensures
        r matches Some(v) ==> v@.wf(),
{
    let start = skip_ws(bytes, 0);
    match parse_value(bytes, start) {
        Some((v, end)) => {
            let rest = skip_ws(bytes, end);
            if rest == bytes.len() {
                Some(v)
            } else {
                None
            }
        },
        None => None,
    }
}

} // verus!
