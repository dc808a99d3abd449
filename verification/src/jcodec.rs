//! The textual wire at the tree level: each entity as a free-form JSON
//! value and back. Encoding is canonical (camelCase keys, kind tags, every
//! field spelled out); decoding accepts fields in any order, treats a
//! missing optional field as absent, and ignores unknown keys. Every
//! encoder's contract states the round trip: decoding its output yields
//! exactly the encoded entity.
use vstd::prelude::*;

use crate::object::JsonV;
use crate::object::JsonValue;
use crate::object::Object;
use crate::object::jv_fields_view;
use crate::object::jv_seq_view;
use crate::object::lemma_jv_fields_view;
use crate::object::lemma_jv_seq_view;
use vstd::string::StrSliceExecFns;

verus! {

/// The value of the first field of the given name, if any.
pub open spec fn field_of(fields: Seq<(Seq<char>, JsonV)>, key: Seq<char>) -> Option<JsonV>
    decreases fields.len(),
{
    if fields.len() == 0 {
        None
    } else if fields[0].0 == key {
        Some(fields[0].1)
    } else {
        field_of(fields.drop_first(), key)
    }
}

proof fn lemma_field_of_skip(fields: Seq<(Seq<char>, JsonV)>, key: Seq<char>, i: int)
    requires
        0 <= i <= fields.len(),
        forall|j: int| 0 <= j < i ==> (#[trigger] fields[j]).0 != key,
    ensures
        field_of(fields, key) == field_of(fields.skip(i), key),
    decreases i,
{
    if i > 0 {
        lemma_field_of_skip(fields.drop_first(), key, i - 1);
        assert(fields.drop_first().skip(i - 1) =~= fields.skip(i));
    } else {
        assert(fields.skip(0) =~= fields);
    }
}

/// Looks up the first field of the given name.
pub fn get_field<'a>(o: &'a Object, key: &str) -> (r: Option<&'a JsonValue>)
    ensures
        match r {
            Some(v) => field_of(o@.fields, key@) == Some(v@),
            None => field_of(o@.fields, key@) is None,
        },
{
    proof {
        broadcast use lemma_jv_fields_view;

    }
    let wanted = key.to_owned();
    let n = o.fields.len();
    let mut i: usize = 0;
    while i < n
        invariant
            n == o.fields@.len(),
            i <= n,
            wanted@ == key@,
            forall|j: int| 0 <= j < i ==> (#[trigger] jv_fields_view(o.fields@)[j]).0 != key@,
        decreases n - i,
    {
        proof {
            lemma_jv_fields_view(o.fields@);
        }
        if o.fields[i].0 == wanted {
            proof {
                lemma_field_of_skip(o@.fields, key@, i as int);
                assert(o@.fields.skip(i as int)[0] == o@.fields[i as int]);
                assert(o@.fields.skip(i as int).len() > 0);
            }
            return Some(&o.fields[i].1);
        }
        i += 1;
    }
    proof {
        lemma_jv_fields_view(o.fields@);
        lemma_field_of_skip(o@.fields, key@, n as int);
        assert(o@.fields.skip(n as int).len() == 0);
    }
    None
}

/// The decimal digits of a non-negative value.
pub open spec fn spec_digits(n: int) -> Seq<char>
    decreases n,
{
    if n < 10 {
        seq![spec_digit_char(n)]
    } else {
        spec_digits(n / 10) + seq![spec_digit_char(n % 10)]
    }
}

/// The character of one decimal digit.
pub open spec fn spec_digit_char(d: int) -> char {
    if d == 0 {
        '0'
    } else if d == 1 {
        '1'
    } else if d == 2 {
        '2'
    } else if d == 3 {
        '3'
    } else if d == 4 {
        '4'
    } else if d == 5 {
        '5'
    } else if d == 6 {
        '6'
    } else if d == 7 {
        '7'
    } else if d == 8 {
        '8'
    } else {
        '9'
    }
}

/// The decimal text of an integer: a minus sign for the negatives, then
/// the digits.
pub open spec fn spec_int_text(n: int) -> Seq<char> {
    if n < 0 {
        seq!['-'] + spec_digits(-n)
    } else {
        spec_digits(n)
    }
}

/// The value of a non-empty run of decimal digits; `None` when any
/// character is no digit.
pub open spec fn digits_val(s: Seq<char>) -> Option<int>
    decreases s.len(),
{
    if s.len() == 0 {
        None
    } else if !('0' <= s.last() <= '9') {
        None
    } else if s.len() == 1 {
        Some(s.last() as int - 48)
    } else {
        match digits_val(s.drop_last()) {
            Some(v) => Some(v * 10 + (s.last() as int - 48)),
            None => None,
        }
    }
}

/// The integer a plain decimal literal denotes: an optional minus sign and
/// digits; `None` for anything else (fractions, exponents).
pub open spec fn int_text_val(s: Seq<char>) -> Option<int> {
    if s.len() > 0 && s[0] == '-' {
        match digits_val(s.skip(1)) {
            Some(v) => Some(-v),
            None => None,
        }
    } else {
        digits_val(s)
    }
}

/// Reading the digits of a value yields the value back.
proof fn lemma_digits_val_of_spec_digits(n: int)
    requires
        n >= 0,
    ensures
        digits_val(spec_digits(n)) == Some(n),
        spec_digits(n).len() > 0,
        spec_digits(n)[0] != '-',
        forall|i: int|
            0 <= i < spec_digits(n).len() ==> '0' <= #[trigger] spec_digits(n)[i] <= '9',
    decreases n,
{
    if n < 10 {
        assert(spec_digits(n) =~= seq![spec_digit_char(n)]);
    } else {
        lemma_digits_val_of_spec_digits(n / 10);
        let s = spec_digits(n);
        assert(s =~= spec_digits(n / 10) + seq![spec_digit_char(n % 10)]);
        assert(s.drop_last() =~= spec_digits(n / 10));
        assert(s.last() == spec_digit_char(n % 10));
        assert('0' <= s.last() <= '9');
        assert(digits_val(s) == Some((n / 10) * 10 + (n % 10)));
        assert((n / 10) * 10 + (n % 10) == n) by (nonlinear_arith);
    }
}

/// Reading the decimal text of a value yields the value back.
pub proof fn lemma_int_text_round_trip(n: int)
    ensures
        int_text_val(spec_int_text(n)) == Some(n),
        crate::object::is_number_text(spec_int_text(n)),
    decreases n,
{
    if n < 0 {
        lemma_digits_val_of_spec_digits(-n);
        let s = spec_int_text(n);
        assert(s[0] == '-');
        assert(s.skip(1) =~= spec_digits(-n));
        assert(forall|i: int|
            1 <= i < s.len() ==> '0' <= #[trigger] s[i] <= '9' && crate::object::is_number_char(
                s[i],
            ));
        assert(crate::object::is_number_char(s[0]));
    } else {
        lemma_digits_val_of_spec_digits(n);
        let s = spec_int_text(n);
        assert(s == spec_digits(n));
        assert(s.len() > 0 && s[0] != '-');
        assert(forall|i: int|
            0 <= i < s.len() ==> '0' <= #[trigger] s[i] <= '9' && crate::object::is_number_char(
                s[i],
            ));
        assert('0' <= s[0] <= '9');
    }
}

/// The digits of a non-negative value, as a string.
fn digits_string(n0: u64) -> (r: Vec<char>)
    ensures
        r@ == spec_digits(n0 as int),
    decreases n0,
{
    let d = (n0 % 10) as u8;
    let c: char = (48 + d) as char;
    proof {
        assert(c == spec_digit_char((n0 % 10) as int));
    }
    if n0 < 10 {
        let mut out: Vec<char> = Vec::new();
        out.push(c);
        proof {
            assert(out@ =~= spec_digits(n0 as int));
        }
        out
    } else {
        let mut out = digits_string(n0 / 10);
        out.push(c);
        proof {
            assert(out@ =~= spec_digits(n0 as int));
        }
        out
    }
}

/// The decimal text of an integer.
pub fn int_text(n: i64) -> (r: String)
    ensures
        r@ == spec_int_text(n as int),
        crate::object::is_number_text(r@),
{
    proof {
        lemma_int_text_round_trip(n as int);
    }
    if n < 0 {
        let mut cs: Vec<char> = Vec::new();
        cs.push('-');
        let mag: u64 = if n == i64::MIN {
            9223372036854775808u64
        } else {
            (-n) as u64
        };
        let mut digits = digits_string(mag);
        let mut all: Vec<char> = cs;
        all.append(&mut digits);
        let r = crate::jsontext::string_from_chars(&all);
        proof {
            assert(all@ =~= spec_int_text(n as int));
        }
        r
    } else {
        let digits = digits_string(n as u64);
        let r = crate::jsontext::string_from_chars(&digits);
        r
    }
}

/// The integer a number literal denotes, when it is a plain decimal
/// within `i64` range; `None` otherwise.
pub fn parse_int_text(s: &str) -> (r: Option<i64>)
    ensures
        match r {
            Some(v) => int_text_val(s@) == Some(v as int),
            None => match int_text_val(s@) {
                Some(v) => v < i64::MIN || v > i64::MAX,
                None => true,
            },
        },
{
    let n = s.unicode_len();
    if n == 0 {
        return None;
    }
    let neg = s.get_char(0) == '-';
    let start: usize = if neg {
        1
    } else {
        0
    };
    if start >= n {
        return None;
    }
    let mut acc: u64 = 0;
    let mut i = start;
    proof {
        if neg {
            assert(s@.skip(1).len() == n - 1);
        }
    }
    let ghost digits: Seq<char> = if neg {
        s@.skip(1)
    } else {
        s@
    };
    while i < n
        invariant
            start <= i <= n,
            n == s@.len(),
            n > 0,
            neg == (s@[0] == '-'),
            start == if neg {
                1int
            } else {
                0int
            },
            start < n,
            digits == if neg {
                s@.skip(1)
            } else {
                s@
            },
            digits.len() == n - start,
            forall|k: int| 0 <= k < digits.len() ==> digits[k] == s@[k + start],
            i > start ==> digits_val(digits.subrange(0, i - start)) == Some(acc as int),
            i > start ==> acc <= 0x7fffffffffffffffu64 + 1,
            i == start ==> acc == 0,
        decreases n - i,
    {
        let c = s.get_char(i);
        if !('0' <= c && c <= '9') {
            proof {
                lemma_digits_prefix_none(digits, i - start);
            }
            return None;
        }
        let d = (c as u32 - 48) as u64;
        if acc > 922337203685477580u64 || (acc == 922337203685477580u64 && d > 8) {
            // The value exceeds the i64 range; more digits keep it there.
            proof {
                let cur = digits.subrange(0, i - start + 1);
                assert(cur.drop_last() =~= digits.subrange(0, i - start));
                assert(cur.last() == digits[i - start]);
                assert(digits[i - start] == s@[i as int]);
                assert(digits_val(cur) == Some(acc as int * 10 + d as int));
                assert(acc as int * 10 + d as int > 0x7fffffffffffffffi64 + 1) by (nonlinear_arith)
                    requires
                        acc > 922337203685477580u64 || (acc == 922337203685477580u64 && d > 8),
                        d >= 0,
                ;
                lemma_digits_grow(digits, i - start + 1);
                assert(digits.subrange(0, digits.len() as int) =~= digits);
            }
            return None;
        }
        acc = acc * 10 + d;
        proof {
            let cur = digits.subrange(0, i - start + 1);
            assert(cur.drop_last() =~= digits.subrange(0, i - start));
            assert(cur.last() == digits[i - start]);
        }
        i += 1;
    }
    proof {
        assert(digits.subrange(0, (n - start) as int) =~= digits);
    }
    if neg {
        if acc > 9223372036854775808u64 {
            return None;
        }
        if acc == 9223372036854775808u64 {
            return Some(i64::MIN);
        }
        Some(-(acc as i64))
    } else {
        if acc > 9223372036854775807u64 {
            return None;
        }
        Some(acc as i64)
    }
}

/// A run with a non-digit has no digits value, nor has any extension of
/// it.
proof fn lemma_digits_prefix_none(s: Seq<char>, i: int)
    requires
        0 <= i < s.len(),
        !('0' <= s[i] <= '9'),
    ensures
        digits_val(s) is None,
    decreases s.len(),
{
    if s.len() > 0 {
        if i == s.len() - 1 {
        } else {
            lemma_digits_prefix_none(s.drop_last(), i);
        }
    }
}

/// A digits value is never negative.
proof fn lemma_digits_val_nonneg(s: Seq<char>)
    ensures
        match digits_val(s) {
            Some(v) => v >= 0,
            None => true,
        },
    decreases s.len(),
{
    if s.len() > 1 {
        lemma_digits_val_nonneg(s.drop_last());
        if digits_val(s) is Some {
            let w = digits_val(s.drop_last())->0;
            assert(w * 10 >= 0) by (nonlinear_arith)
                requires
                    w >= 0,
            ;
        }
    }
}

/// A digits value never shrinks as digits are appended.
proof fn lemma_digits_grow(s: Seq<char>, from: int)
    requires
        1 <= from <= s.len(),
    ensures
        match digits_val(s) {
            Some(v) => match digits_val(s.subrange(0, from)) {
                Some(w) => v >= w,
                None => true,
            },
            None => true,
        },
    decreases s.len() - from,
{
    if from < s.len() {
        let a = s.subrange(0, from);
        let b = s.subrange(0, from + 1);
        assert(b.drop_last() =~= a);
        assert(b.last() == s[from]);
        if !('0' <= s[from] <= '9') {
            lemma_digits_prefix_none(s, from);
        } else {
            lemma_digits_grow(s, from + 1);
            if digits_val(b) is Some && digits_val(a) is Some {
                lemma_digits_val_nonneg(a);
                let w = digits_val(a)->0;
                assert(digits_val(b)->0 == w * 10 + (b.last() as int - 48));
                assert(w * 10 >= w) by (nonlinear_arith)
                    requires
                        w >= 0,
                ;
            }
        }
    } else {
        assert(s.subrange(0, from) =~= s);
    }
}

/// An optional string field: absent or null is `None`; anything but a
/// string is an error.
pub open spec fn opt_str_field(fields: Seq<(Seq<char>, JsonV)>, key: Seq<char>) -> Option<
    Option<Seq<char>>,
> {
    match field_of(fields, key) {
        None => Some(None),
        Some(JsonV::Null) => Some(None),
        Some(JsonV::Str(s)) => Some(Some(s)),
        Some(_) => None,
    }
}

/// A required string field.
pub open spec fn req_str_field(fields: Seq<(Seq<char>, JsonV)>, key: Seq<char>) -> Option<
    Seq<char>,
> {
    match field_of(fields, key) {
        Some(JsonV::Str(s)) => Some(s),
        _ => None,
    }
}

/// A string field that defaults to the empty string when absent.
pub open spec fn str_or_empty_field(fields: Seq<(Seq<char>, JsonV)>, key: Seq<char>) -> Option<
    Seq<char>,
> {
    match field_of(fields, key) {
        None => Some(Seq::empty()),
        Some(JsonV::Str(s)) => Some(s),
        Some(_) => None,
    }
}

/// An optional free-form-object field: absent or null is `None`.
pub open spec fn opt_object_field(fields: Seq<(Seq<char>, JsonV)>, key: Seq<char>) -> Option<
    Option<crate::object::ObjectV>,
> {
    match field_of(fields, key) {
        None => Some(None),
        Some(JsonV::Null) => Some(None),
        Some(JsonV::Obj(fs)) => Some(Some(crate::object::ObjectV { fields: fs })),
        Some(_) => None,
    }
}

/// The strings of an array of JSON strings.
pub open spec fn strings_from_json(items: Seq<JsonV>) -> Option<Seq<Seq<char>>>
    decreases items.len(),
{
    if items.len() == 0 {
        Some(Seq::empty())
    } else {
        match items.last() {
            JsonV::Str(s) => match strings_from_json(items.drop_last()) {
                Some(ss) => Some(ss.push(s)),
                None => None,
            },
            _ => None,
        }
    }
}

/// A string-array field that defaults to empty when absent.
pub open spec fn strings_field(fields: Seq<(Seq<char>, JsonV)>, key: Seq<char>) -> Option<
    Seq<Seq<char>>,
> {
    match field_of(fields, key) {
        None => Some(Seq::empty()),
        Some(JsonV::Arr(items)) => strings_from_json(items),
        Some(_) => None,
    }
}

/// The bytes of an array of JSON numbers, each a plain decimal in 0..=255.
pub open spec fn bytes_from_json(items: Seq<JsonV>) -> Option<Seq<u8>>
    decreases items.len(),
{
    if items.len() == 0 {
        Some(Seq::empty())
    } else {
        match items.last() {
            JsonV::Num(s) => match int_text_val(s) {
                Some(v) => if 0 <= v <= 255 {
                    match bytes_from_json(items.drop_last()) {
                        Some(bs) => Some(bs.push(v as u8)),
                        None => None,
                    }
                } else {
                    None
                },
                None => None,
            },
            _ => None,
        }
    }
}

/// The part a JSON value denotes: a `kind`-tagged object; an object
/// without a kind is the empty part.
pub open spec fn part_from_json(v: JsonV) -> Option<crate::model::PartV> {
    match v {
        JsonV::Obj(fs) => match field_of(fs, "kind"@) {
            None => Some(crate::model::PartV { part: None }),
            Some(JsonV::Str(k)) => if k == "text"@ {
                match req_str_field(fs, "text"@) {
                    Some(t) => Some(
                        crate::model::PartV { part: Some(crate::model::PartBaseV::Text(t)) },
                    ),
                    None => None,
                }
            } else if k == "file"@ {
                match req_str_field(fs, "mimeType"@) {
                    Some(m) => match field_of(fs, "fileWithUri"@) {
                        Some(JsonV::Str(u)) => Some(
                            crate::model::PartV {
                                part: Some(
                                    crate::model::PartBaseV::File(
                                        crate::model::FilePartV {
                                            file: Some(crate::model::FileV::FileWithUri(u)),
                                            mime_type: m,
                                        },
                                    ),
                                ),
                            },
                        ),
                        Some(JsonV::Null) | None => match field_of(fs, "fileWithBytes"@) {
                            Some(JsonV::Arr(items)) => match bytes_from_json(items) {
                                Some(bs) => Some(
                                    crate::model::PartV {
                                        part: Some(
                                            crate::model::PartBaseV::File(
                                                crate::model::FilePartV {
                                                    file: Some(
                                                        crate::model::FileV::FileWithBytes(bs),
                                                    ),
                                                    mime_type: m,
                                                },
                                            ),
                                        ),
                                    },
                                ),
                                None => None,
                            },
                            Some(JsonV::Null) | None => Some(
                                crate::model::PartV {
                                    part: Some(
                                        crate::model::PartBaseV::File(
                                            crate::model::FilePartV { file: None, mime_type: m },
                                        ),
                                    ),
                                },
                            ),
                            Some(_) => None,
                        },
                        Some(_) => None,
                    },
                    None => None,
                }
            } else if k == "data"@ {
                match opt_object_field(fs, "data"@) {
                    Some(d) => Some(
                        crate::model::PartV {
                            part: Some(
                                crate::model::PartBaseV::Data(crate::model::DataPartV { data: d }),
                            ),
                        },
                    ),
                    None => None,
                }
            } else {
                None
            },
            Some(_) => None,
        },
        _ => None,
    }
}

/// The parts of an array of JSON values.
pub open spec fn parts_from_json(items: Seq<JsonV>) -> Option<Seq<crate::model::PartV>>
    decreases items.len(),
{
    if items.len() == 0 {
        Some(Seq::empty())
    } else {
        match part_from_json(items.last()) {
            Some(p) => match parts_from_json(items.drop_last()) {
                Some(ps) => Some(ps.push(p)),
                None => None,
            },
            None => None,
        }
    }
}

/// Encodes a list of strings as a JSON array.
pub fn strings_to_json(v: &Vec<String>) -> (r: JsonValue)
    ensures
        r@ matches JsonV::Arr(items) && strings_from_json(items) == Some(
            v@.map_values(|s: String| s@),
        ),
{
    let mut items: Vec<JsonValue> = Vec::new();
    let n = v.len();
    let mut i: usize = 0;
    proof {
        broadcast use lemma_jv_seq_view;

        assert(jv_seq_view(items@) =~= Seq::<JsonV>::empty());
        assert(v@.map_values(|s: String| s@).subrange(0, 0) =~= Seq::<Seq<char>>::empty());
    }
    while i < n
        invariant
            n == v@.len(),
            i <= n,
            items@.len() == i,
            strings_from_json(jv_seq_view(items@)) == Some(
                v@.map_values(|s: String| s@).subrange(0, i as int),
            ),
        decreases n - i,
    {
        let ghost pre = jv_seq_view(items@);
        items.push(JsonValue::Str(v[i].clone()));
        proof {
            broadcast use lemma_jv_seq_view;

            let cur = jv_seq_view(items@);
            assert(cur.drop_last() =~= pre);
            assert(cur.last() == JsonV::Str(v@[i as int]@));
            let full = v@.map_values(|s: String| s@);
            assert(full.subrange(0, i + 1 as int).drop_last() =~= full.subrange(0, i as int));
        }
        i += 1;
    }
    proof {
        assert(v@.map_values(|s: String| s@).subrange(0, n as int) =~= v@.map_values(
            |s: String| s@,
        ));
    }
    JsonValue::Array(items)
}

/// Encodes bytes as a JSON array of numbers.
pub fn bytes_to_json(v: &Vec<u8>) -> (r: JsonValue)
    ensures
        r@ matches JsonV::Arr(items) && bytes_from_json(items) == Some(v@),
{
    let mut items: Vec<JsonValue> = Vec::new();
    let n = v.len();
    let mut i: usize = 0;
    proof {
        broadcast use lemma_jv_seq_view;

        assert(jv_seq_view(items@) =~= Seq::<JsonV>::empty());
        assert(v@.subrange(0, 0) =~= Seq::<u8>::empty());
    }
    while i < n
        invariant
            n == v@.len(),
            i <= n,
            items@.len() == i,
            bytes_from_json(jv_seq_view(items@)) == Some(v@.subrange(0, i as int)),
        decreases n - i,
    {
        let ghost pre = jv_seq_view(items@);
        let b = v[i];
        let text = int_text(b as i64);
        proof {
            lemma_int_text_round_trip(b as int);
        }
        items.push(JsonValue::Number(text));
        proof {
            broadcast use lemma_jv_seq_view;

            let cur = jv_seq_view(items@);
            assert(cur.drop_last() =~= pre);
            assert(v@.subrange(0, i + 1 as int).drop_last() =~= v@.subrange(0, i as int));
            assert(v@.subrange(0, i + 1 as int).last() == b);
        }
        i += 1;
    }
    proof {
        assert(v@.subrange(0, n as int) =~= v@);
    }
    JsonValue::Array(items)
}

/// Encodes one part. Decoding the result yields the part back.
pub fn part_to_json(p: &crate::model::Part) -> (r: JsonValue)
    ensures
        part_from_json(r@) == Some(p@),
{
    let mut fields: Vec<(String, JsonValue)> = Vec::new();
    match &p.part {
        None => {
            let r = JsonValue::Object(Object { fields });
            proof {
                let fs = r->Object_0@.fields;
                lemma_jv_fields_view(r->Object_0.fields@);
                reveal_with_fuel(field_of, 6);
                assert(fs.len() == 0);
                assert(field_of(fs, "kind"@) is None);
                assert(part_from_json(r@) == Some(p@));
            }
            r
        },
        Some(crate::model::PartBase::Text(t)) => {
            fields.push(("kind".to_owned(), JsonValue::Str("text".to_owned())));
            fields.push(("text".to_owned(), JsonValue::Str(t.clone())));
            let r = JsonValue::Object(Object { fields });
            proof {
                let fs = r->Object_0@.fields;
                lemma_jv_fields_view(r->Object_0.fields@);
                reveal_strlit("kind");
                reveal_strlit("text");
                reveal_with_fuel(field_of, 6);
                assert(fs.len() == 2);
                assert(fs[0] == ("kind"@, JsonV::Str("text"@)));
                assert(fs.drop_first()[0] == ("text"@, JsonV::Str(t@)));
                assert(("kind"@)[0] != ("text"@)[0]);
                assert("kind"@ != "text"@);
                assert(field_of(fs, "kind"@) == Some(JsonV::Str("text"@)));
                assert(field_of(fs, "text"@) == Some(JsonV::Str(t@)));
                assert(part_from_json(r@) == Some(p@));
            }
            r
        },
        Some(crate::model::PartBase::File(fp)) => {
            fields.push(("kind".to_owned(), JsonValue::Str("file".to_owned())));
            fields.push(("mimeType".to_owned(), JsonValue::Str(fp.mime_type.clone())));
            match &fp.file {
                Some(crate::model::File::FileWithUri(u)) => {
                    fields.push(("fileWithUri".to_owned(), JsonValue::Str(u.clone())));
                },
                Some(crate::model::File::FileWithBytes(bs)) => {
                    fields.push(("fileWithBytes".to_owned(), bytes_to_json(bs)));
                },
                None => {},
            }
            let r = JsonValue::Object(Object { fields });
            proof {
                let fs = r->Object_0@.fields;
                lemma_jv_fields_view(r->Object_0.fields@);
                reveal_strlit("kind");
                reveal_strlit("text");
                reveal_strlit("file");
                reveal_strlit("mimeType");
                reveal_strlit("fileWithUri");
                reveal_strlit("fileWithBytes");
                reveal_with_fuel(field_of, 6);
                assert(("file"@)[0] != ("text"@)[0]);
                assert("file"@ != "text"@);
                assert(fs[0] == ("kind"@, JsonV::Str("file"@)));
                assert(field_of(fs, "kind"@) == Some(JsonV::Str("file"@)));
                assert(fs.drop_first()[0].0 == "mimeType"@);
                assert(("kind"@).len() != ("mimeType"@).len());
                assert(field_of(fs, "mimeType"@) == Some(JsonV::Str(fp.mime_type@)));
                match &fp.file {
                    Some(crate::model::File::FileWithUri(u)) => {
                        assert(fs.len() == 3);
                        assert(fs.drop_first().drop_first()[0].0 == "fileWithUri"@);
                        assert(("kind"@).len() != ("fileWithUri"@).len());
                        assert(("mimeType"@).len() != ("fileWithUri"@).len());
                        assert(field_of(fs, "fileWithUri"@) == Some(JsonV::Str(u@)));
                        assert(part_from_json(r@) == Some(p@));
                    },
                    Some(crate::model::File::FileWithBytes(bs)) => {
                        assert(fs.len() == 3);
                        assert(fs.drop_first()[0].0 == "mimeType"@);
                        assert(fs.drop_first().drop_first()[0].0 == "fileWithBytes"@);
                        assert(fs.drop_first().drop_first().drop_first().len() == 0);
                        assert(("kind"@).len() != ("fileWithUri"@).len());
                        assert(("mimeType"@).len() != ("fileWithUri"@).len());
                        assert(("fileWithBytes"@).len() != ("fileWithUri"@).len());
                        assert(field_of(fs, "fileWithUri"@) is None);
                        assert(fs.drop_first().drop_first()[0].0 == "fileWithBytes"@);
                        assert(field_of(fs, "fileWithBytes"@) == Some(
                            fs.drop_first().drop_first()[0].1,
                        ));
                        assert(part_from_json(r@) == Some(p@));
                    },
                    None => {
                        assert(fs.len() == 2);
                        assert(fs.drop_first().drop_first().len() == 0);
                        assert(field_of(fs, "fileWithUri"@) is None);
                        assert(field_of(fs, "fileWithBytes"@) is None);
                        assert(part_from_json(r@) == Some(p@));
                    },
                }
            }
            r
        },
        Some(crate::model::PartBase::Data(dp)) => {
            fields.push(("kind".to_owned(), JsonValue::Str("data".to_owned())));
            match &dp.data {
                Some(o) => {
                    fields.push(("data".to_owned(), JsonValue::Object(o.dup())));
                },
                None => {
                    fields.push(("data".to_owned(), JsonValue::Null));
                },
            }
            let r = JsonValue::Object(Object { fields });
            proof {
                let fs = r->Object_0@.fields;
                lemma_jv_fields_view(r->Object_0.fields@);
                reveal_strlit("kind");
                reveal_strlit("text");
                reveal_strlit("file");
                reveal_strlit("data");
                reveal_with_fuel(field_of, 6);
                assert(("data"@)[0] != ("text"@)[0]);
                assert("data"@ != "text"@);
                assert(("data"@)[0] != ("file"@)[0]);
                assert("data"@ != "file"@);
                assert(fs.len() == 2);
                assert(fs[0] == ("kind"@, JsonV::Str("data"@)));
                assert(("kind"@)[0] != ("data"@)[0]);
                assert("kind"@ != "data"@);
                assert(field_of(fs, "kind"@) == Some(JsonV::Str("data"@)));
                assert(fs.drop_first()[0].0 == "data"@);
                assert(field_of(fs, "data"@) == Some(fs.drop_first()[0].1));
                assert(part_from_json(r@) == Some(p@));
            }
            r
        },
    }
}

/// Decodes an array of JSON strings.
pub fn strings_of_json(items: &Vec<JsonValue>) -> (r: Option<Vec<String>>)
    ensures
        match r {
            Some(ss) => strings_from_json(jv_seq_view(items@)) == Some(
                ss@.map_values(|s: String| s@),
            ),
            None => strings_from_json(jv_seq_view(items@)) is None,
        },
{
    proof {
        broadcast use lemma_jv_seq_view;

    }
    let ghost views = jv_seq_view(items@);
    let mut out: Vec<String> = Vec::new();
    let n = items.len();
    let mut i: usize = 0;
    proof {
        assert(views.subrange(0, 0) =~= Seq::<JsonV>::empty());
        assert(out@.map_values(|s: String| s@) =~= Seq::<Seq<char>>::empty());
    }
    while i < n
        invariant
            n == items@.len(),
            i <= n,
            views == jv_seq_view(items@),
            views.len() == n,
            forall|k: int| 0 <= k < n ==> views[k] == crate::object::jv_view(items@[k]),
            strings_from_json(views.subrange(0, i as int)) == Some(
                out@.map_values(|s: String| s@),
            ),
        decreases n - i,
    {
        let ghost pre = out@.map_values(|s: String| s@);
        match &items[i] {
            JsonValue::Str(t) => {
                out.push(t.clone());
            },
            _ => {
                proof {
                    lemma_strings_from_json_bad(views, i as int);
                }
                return None;
            },
        }
        proof {
            let cur = views.subrange(0, i + 1 as int);
            assert(cur.drop_last() =~= views.subrange(0, i as int));
            assert(cur.last() == views[i as int]);
            assert(out@.map_values(|s: String| s@) =~= pre.push(out@.last()@));
        }
        i += 1;
    }
    proof {
        assert(views.subrange(0, n as int) =~= views);
    }
    Some(out)
}

/// A non-string element anywhere spoils a string array.
proof fn lemma_strings_from_json_bad(views: Seq<JsonV>, i: int)
    requires
        0 <= i < views.len(),
        !(views[i] is Str),
    ensures
        strings_from_json(views) is None,
    decreases views.len(),
{
    if views.len() > 0 {
        if i < views.len() - 1 {
            lemma_strings_from_json_bad(views.drop_last(), i);
        }
    }
}

/// Decodes an array of JSON values as parts.
pub fn parts_of_json(items: &Vec<JsonValue>) -> (r: Option<Vec<crate::model::Part>>)
    ensures
        match r {
            Some(ps) => parts_from_json(jv_seq_view(items@)) == Some(
                ps@.map_values(|p: crate::model::Part| p@),
            ),
            None => parts_from_json(jv_seq_view(items@)) is None,
        },
{
    proof {
        broadcast use lemma_jv_seq_view;

    }
    let ghost views = jv_seq_view(items@);
    let mut out: Vec<crate::model::Part> = Vec::new();
    let n = items.len();
    let mut i: usize = 0;
    proof {
        assert(views.subrange(0, 0) =~= Seq::<JsonV>::empty());
        assert(out@.map_values(|p: crate::model::Part| p@) =~= Seq::<crate::model::PartV>::empty());
    }
    while i < n
        invariant
            n == items@.len(),
            i <= n,
            views == jv_seq_view(items@),
            views.len() == n,
            forall|k: int| 0 <= k < n ==> views[k] == crate::object::jv_view(items@[k]),
            parts_from_json(views.subrange(0, i as int)) == Some(
                out@.map_values(|p: crate::model::Part| p@),
            ),
        decreases n - i,
    {
        let ghost pre = out@.map_values(|p: crate::model::Part| p@);
        match part_of_json(&items[i]) {
            Some(p) => {
                out.push(p);
            },
            None => {
                proof {
                    lemma_parts_from_json_bad(views, i as int);
                }
                return None;
            },
        }
        proof {
            let cur = views.subrange(0, i + 1 as int);
            assert(cur.drop_last() =~= views.subrange(0, i as int));
            assert(cur.last() == views[i as int]);
            assert(out@.map_values(|p: crate::model::Part| p@) =~= pre.push(out@.last()@));
        }
        i += 1;
    }
    proof {
        assert(views.subrange(0, n as int) =~= views);
    }
    Some(out)
}

/// An undecodable element anywhere spoils a part array.
proof fn lemma_parts_from_json_bad(views: Seq<JsonV>, i: int)
    requires
        0 <= i < views.len(),
        part_from_json(views[i]) is None,
    ensures
        parts_from_json(views) is None,
    decreases views.len(),
{
    if views.len() > 0 {
        if i < views.len() - 1 {
            lemma_parts_from_json_bad(views.drop_last(), i);
        }
    }
}

/// Decodes an array of JSON numbers as bytes.
pub fn bytes_of_json(items: &Vec<JsonValue>) -> (r: Option<Vec<u8>>)
    ensures
        match r {
            Some(bs) => bytes_from_json(jv_seq_view(items@)) == Some(bs@),
            None => bytes_from_json(jv_seq_view(items@)) is None,
        },
{
    proof {
        broadcast use lemma_jv_seq_view;

    }
    let ghost views = jv_seq_view(items@);
    let mut out: Vec<u8> = Vec::new();
    let n = items.len();
    let mut i: usize = 0;
    proof {
        assert(views.subrange(0, 0) =~= Seq::<JsonV>::empty());
        assert(out@ =~= Seq::<u8>::empty());
    }
    while i < n
        invariant
            n == items@.len(),
            i <= n,
            views == jv_seq_view(items@),
            views.len() == n,
            forall|k: int| 0 <= k < n ==> views[k] == crate::object::jv_view(items@[k]),
            bytes_from_json(views.subrange(0, i as int)) == Some(out@),
        decreases n - i,
    {
        let ghost pre = out@;
        let ok: bool = match &items[i] {
            JsonValue::Number(t) => match parse_int_text(t.as_str()) {
                Some(v) => if 0 <= v && v <= 255 {
                    out.push(v as u8);
                    true
                } else {
                    false
                },
                None => false,
            },
            _ => false,
        };
        if !ok {
            proof {
                lemma_bytes_from_json_bad(views, i as int);
            }
            return None;
        }
        proof {
            let cur = views.subrange(0, i + 1 as int);
            assert(cur.drop_last() =~= views.subrange(0, i as int));
            assert(cur.last() == views[i as int]);
        }
        i += 1;
    }
    proof {
        assert(views.subrange(0, n as int) =~= views);
    }
    Some(out)
}

/// An element that is no byte-sized decimal spoils a byte array.
proof fn lemma_bytes_from_json_bad(views: Seq<JsonV>, i: int)
    requires
        0 <= i < views.len(),
        match views[i] {
            JsonV::Num(s) => match int_text_val(s) {
                Some(v) => !(0 <= v <= 255),
                None => true,
            },
            _ => true,
        },
    ensures
        bytes_from_json(views) is None,
    decreases views.len(),
{
    if views.len() > 0 {
        if i < views.len() - 1 {
            lemma_bytes_from_json_bad(views.drop_last(), i);
        }
    }
}

/// Decodes one part.
pub fn part_of_json(v: &JsonValue) -> (r: Option<crate::model::Part>)
    ensures
        match r {
            Some(p) => part_from_json(v@) == Some(p@),
            None => part_from_json(v@) is None,
        },
{
    let obj = match v {
        JsonValue::Object(o) => o,
        _ => {
            return None;
        },
    };
    let kind = match get_field(obj, "kind") {
        None => {
            return Some(crate::model::Part { part: None });
        },
        Some(JsonValue::Str(k)) => k,
        Some(_) => {
            return None;
        },
    };
    let lit_text = "text".to_owned();
    let lit_file = "file".to_owned();
    let lit_data = "data".to_owned();
    if *kind == lit_text {
        match get_field(obj, "text") {
            Some(JsonValue::Str(t)) => Some(
                crate::model::Part { part: Some(crate::model::PartBase::Text(t.clone())) },
            ),
            _ => None,
        }
    } else if *kind == lit_file {
        let mime = match get_field(obj, "mimeType") {
            Some(JsonValue::Str(m)) => m.clone(),
            _ => {
                return None;
            },
        };
        match get_field(obj, "fileWithUri") {
            Some(JsonValue::Str(u)) => Some(
                crate::model::Part {
                    part: Some(
                        crate::model::PartBase::File(
                            crate::model::FilePart {
                                file: Some(crate::model::File::FileWithUri(u.clone())),
                                mime_type: mime,
                            },
                        ),
                    ),
                },
            ),
            Some(JsonValue::Null) | None => match get_field(obj, "fileWithBytes") {
                Some(JsonValue::Array(items)) => match bytes_of_json(items) {
                    Some(bs) => Some(
                        crate::model::Part {
                            part: Some(
                                crate::model::PartBase::File(
                                    crate::model::FilePart {
                                        file: Some(crate::model::File::FileWithBytes(bs)),
                                        mime_type: mime,
                                    },
                                ),
                            ),
                        },
                    ),
                    None => None,
                },
                Some(JsonValue::Null) | None => Some(
                    crate::model::Part {
                        part: Some(
                            crate::model::PartBase::File(
                                crate::model::FilePart { file: None, mime_type: mime },
                            ),
                        ),
                    },
                ),
                Some(_) => None,
            },
            Some(_) => None,
        }
    } else if *kind == lit_data {
        match get_field(obj, "data") {
            None => Some(
                crate::model::Part {
                    part: Some(crate::model::PartBase::Data(crate::model::DataPart { data: None })),
                },
            ),
            Some(JsonValue::Null) => Some(
                crate::model::Part {
                    part: Some(crate::model::PartBase::Data(crate::model::DataPart { data: None })),
                },
            ),
            Some(JsonValue::Object(o)) => Some(
                crate::model::Part {
                    part: Some(
                        crate::model::PartBase::Data(
                            crate::model::DataPart { data: Some(o.dup()) },
                        ),
                    ),
                },
            ),
            Some(_) => None,
        }
    } else {
        None
    }
}

/// The textual-wire name of a role code.
pub open spec fn spec_role_name(code: int) -> Seq<char> {
    if code == 1 {
        "user"@
    } else if code == 2 {
        "agent"@
    } else {
        "unspecified"@
    }
}

/// The role code of a textual-wire role name.
pub open spec fn spec_role_code(s: Seq<char>) -> Option<int> {
    if s == "unspecified"@ {
        Some(0int)
    } else if s == "user"@ {
        Some(1int)
    } else if s == "agent"@ {
        Some(2int)
    } else {
        None
    }
}

/// A role name reads back as its code.
pub proof fn lemma_role_name_round_trip(code: int)
    requires
        0 <= code <= 2,
    ensures
        spec_role_code(spec_role_name(code)) == Some(code),
{
    reveal_strlit("unspecified");
    reveal_strlit("user");
    reveal_strlit("agent");
    assert(("unspecified"@).len() != ("user"@).len());
    assert(("unspecified"@).len() != ("agent"@).len());
    assert(("user"@).len() != ("agent"@).len());
}

/// The textual-wire name of a role code.
pub fn role_name(code: i32) -> (r: String)
    requires
        0 <= code <= 2,
    ensures
        r@ == spec_role_name(code as int),
{
    if code == 1 {
        "user".to_owned()
    } else if code == 2 {
        "agent".to_owned()
    } else {
        "unspecified".to_owned()
    }
}

/// The role code of a textual-wire role name.
pub fn role_code(s: &String) -> (r: Option<i32>)
    ensures
        match r {
            Some(c) => spec_role_code(s@) == Some(c as int) && 0 <= c <= 2,
            None => spec_role_code(s@) is None,
        },
{
    if *s == "unspecified".to_owned() {
        Some(0)
    } else if *s == "user".to_owned() {
        Some(1)
    } else if *s == "agent".to_owned() {
        Some(2)
    } else {
        None
    }
}

/// The message a JSON value denotes.
pub open spec fn message_from_json(v: JsonV) -> Option<crate::model::MessageV> {
    match v {
        JsonV::Obj(fs) => match req_str_field(fs, "messageId"@) {
            Some(mid) => match opt_str_field(fs, "contextId"@) {
                Some(cid) => match opt_str_field(fs, "taskId"@) {
                    Some(tid) => match (match field_of(fs, "role"@) {
                        None => Some(0int),
                        Some(JsonV::Str(rn)) => spec_role_code(rn),
                        Some(_) => None,
                    }) {
                        Some(role) => match (match field_of(fs, "parts"@) {
                            None => Some(Seq::<crate::model::PartV>::empty()),
                            Some(JsonV::Arr(items)) => parts_from_json(items),
                            Some(_) => None,
                        }) {
                            Some(parts) => match opt_object_field(fs, "metadata"@) {
                                Some(md) => match strings_field(fs, "extensions"@) {
                                    Some(exts) => Some(
                                        crate::model::MessageV {
                                            message_id: mid,
                                            context_id: cid,
                                            task_id: tid,
                                            role: role,
                                            parts: parts,
                                            metadata: md,
                                            extensions: exts,
                                        },
                                    ),
                                    None => None,
                                },
                                None => None,
                            },
                            None => None,
                        },
                        None => None,
                    },
                    None => None,
                },
                None => None,
            },
            None => None,
        },
        _ => None,
    }
}

/// Encodes a list of parts as a JSON array.
pub fn parts_to_json(v: &Vec<crate::model::Part>) -> (r: JsonValue)
    ensures
        r@ matches JsonV::Arr(items) && parts_from_json(items) == Some(
            v@.map_values(|p: crate::model::Part| p@),
        ),
{
    let mut items: Vec<JsonValue> = Vec::new();
    let n = v.len();
    let mut i: usize = 0;
    proof {
        broadcast use lemma_jv_seq_view;

        assert(jv_seq_view(items@) =~= Seq::<JsonV>::empty());
        assert(v@.map_values(|p: crate::model::Part| p@).subrange(0, 0) =~= Seq::<
            crate::model::PartV,
        >::empty());
    }
    while i < n
        invariant
            n == v@.len(),
            i <= n,
            items@.len() == i,
            parts_from_json(jv_seq_view(items@)) == Some(
                v@.map_values(|p: crate::model::Part| p@).subrange(0, i as int),
            ),
        decreases n - i,
    {
        let ghost pre = jv_seq_view(items@);
        items.push(part_to_json(&v[i]));
        proof {
            broadcast use lemma_jv_seq_view;

            let cur = jv_seq_view(items@);
            assert(cur.drop_last() =~= pre);
            let full = v@.map_values(|p: crate::model::Part| p@);
            assert(full.subrange(0, i + 1 as int).drop_last() =~= full.subrange(0, i as int));
            assert(full.subrange(0, i + 1 as int).last() == full[i as int]);
        }
        i += 1;
    }
    proof {
        let full = v@.map_values(|p: crate::model::Part| p@);
        assert(full.subrange(0, n as int) =~= full);
    }
    JsonValue::Array(items)
}

/// Encodes an optional string as a string or null.
fn opt_string_json(v: &Option<String>) -> (r: JsonValue)
    ensures
        match v {
            Some(s) => r@ == JsonV::Str(s@),
            None => r@ == JsonV::Null,
        },
{
    match v {
        Some(s) => JsonValue::Str(s.clone()),
        None => JsonValue::Null,
    }
}

/// Encodes an optional object as an object or null.
fn opt_object_json(v: &Option<Object>) -> (r: JsonValue)
    ensures
        match v {
            Some(o) => r@ == JsonV::Obj(o@.fields),
            None => r@ == JsonV::Null,
        },
{
    match v {
        Some(o) => JsonValue::Object(o.dup()),
        None => JsonValue::Null,
    }
}

/// Encodes one message. Decoding the result yields the message back.
pub fn message_to_json(m: &crate::model::Message) -> (r: JsonValue)
    requires
        m@.wf(),
    ensures
        message_from_json(r@) == Some(m@),
{
    let mut fields: Vec<(String, JsonValue)> = Vec::new();
    fields.push(("messageId".to_owned(), JsonValue::Str(m.message_id.clone())));
    fields.push(("contextId".to_owned(), opt_string_json(&m.context_id)));
    fields.push(("taskId".to_owned(), opt_string_json(&m.task_id)));
    fields.push(("role".to_owned(), JsonValue::Str(role_name(m.role))));
    fields.push(("parts".to_owned(), parts_to_json(&m.parts)));
    fields.push(("metadata".to_owned(), opt_object_json(&m.metadata)));
    fields.push(("extensions".to_owned(), strings_to_json(&m.extensions)));
    let r = JsonValue::Object(Object { fields });
    proof {
        let fs = r->Object_0@.fields;
        lemma_jv_fields_view(r->Object_0.fields@);
        reveal_strlit("messageId");
        reveal_strlit("contextId");
        reveal_strlit("taskId");
        reveal_strlit("role");
        reveal_strlit("parts");
        reveal_strlit("metadata");
        reveal_strlit("extensions");
        reveal_with_fuel(field_of, 9);
        assert(fs.len() == 7);
        assert(("messageId"@)[0] != ("contextId"@)[0]);
        assert("messageId"@ != "contextId"@);
        let d1 = fs.drop_first();
        let d2 = d1.drop_first();
        let d3 = d2.drop_first();
        let d4 = d3.drop_first();
        let d5 = d4.drop_first();
        let d6 = d5.drop_first();
        assert(fs[0].0 == "messageId"@);
        assert(d1[0].0 == "contextId"@);
        assert(d2[0].0 == "taskId"@);
        assert(d3[0].0 == "role"@);
        assert(d4[0].0 == "parts"@);
        assert(d5[0].0 == "metadata"@);
        assert(d6[0].0 == "extensions"@);
        assert(field_of(fs, "messageId"@) == Some(fs[0].1));
        assert(field_of(fs, "contextId"@) == Some(d1[0].1));
        assert(field_of(fs, "taskId"@) == Some(d2[0].1));
        assert(field_of(fs, "role"@) == Some(d3[0].1));
        assert(field_of(fs, "parts"@) == Some(d4[0].1));
        assert(field_of(fs, "metadata"@) == Some(d5[0].1));
        assert(field_of(fs, "extensions"@) == Some(d6[0].1));
        lemma_role_name_round_trip(m@.role);
        assert(message_from_json(r@) == Some(m@));
    }
    r
}

/// Decodes one message.
pub fn message_of_json(v: &JsonValue) -> (r: Option<crate::model::Message>)
    ensures
        match r {
            Some(m) => message_from_json(v@) == Some(m@) && m@.wf(),
            None => message_from_json(v@) is None,
        },
{
    let obj = match v {
        JsonValue::Object(o) => o,
        _ => {
            return None;
        },
    };
    let message_id = match get_field(obj, "messageId") {
        Some(JsonValue::Str(s)) => s.clone(),
        _ => {
            return None;
        },
    };
    let context_id = match get_field(obj, "contextId") {
        None => None,
        Some(JsonValue::Null) => None,
        Some(JsonValue::Str(s)) => Some(s.clone()),
        Some(_) => {
            return None;
        },
    };
    let task_id = match get_field(obj, "taskId") {
        None => None,
        Some(JsonValue::Null) => None,
        Some(JsonValue::Str(s)) => Some(s.clone()),
        Some(_) => {
            return None;
        },
    };
    let role: i32 = match get_field(obj, "role") {
        None => 0,
        Some(JsonValue::Str(rn)) => match role_code(rn) {
            Some(c) => c,
            None => {
                return None;
            },
        },
        Some(_) => {
            return None;
        },
    };
    let parts: Vec<crate::model::Part> = match get_field(obj, "parts") {
        None => Vec::new(),
        Some(JsonValue::Array(items)) => match parts_of_json(items) {
            Some(ps) => ps,
            None => {
                return None;
            },
        },
        Some(_) => {
            return None;
        },
    };
    let metadata = match get_field(obj, "metadata") {
        None => None,
        Some(JsonValue::Null) => None,
        Some(JsonValue::Object(o)) => Some(o.dup()),
        Some(_) => {
            return None;
        },
    };
    let extensions: Vec<String> = match get_field(obj, "extensions") {
        None => Vec::new(),
        Some(JsonValue::Array(items)) => match strings_of_json(items) {
            Some(ss) => ss,
            None => {
                return None;
            },
        },
        Some(_) => {
            return None;
        },
    };
    let m = crate::model::Message {
        message_id,
        context_id,
        task_id,
        role,
        parts,
        metadata,
        extensions,
    };
    proof {
        assert(m@.parts =~= m.parts@.map_values(|p: crate::model::Part| p@));
        assert(m@.extensions =~= m.extensions@.map_values(|s: String| s@));
        if m.parts@.len() == 0 {
            assert(m@.parts =~= Seq::<crate::model::PartV>::empty());
        }
        if m.extensions@.len() == 0 {
            assert(m@.extensions =~= Seq::<Seq<char>>::empty());
        }
        assert(message_from_json(v@) == Some(m@));
    }
    Some(m)
}

/// The textual-wire name of a task state code.
pub open spec fn spec_state_name(code: int) -> Seq<char> {
    if code == 1 {
        "submitted"@
    } else if code == 2 {
        "working"@
    } else if code == 3 {
        "completed"@
    } else if code == 4 {
        "failed"@
    } else if code == 5 {
        "cancelled"@
    } else if code == 6 {
        "input-required"@
    } else if code == 7 {
        "rejected"@
    } else if code == 8 {
        "auth-required"@
    } else {
        "unspecified"@
    }
}

/// The task state code of a textual-wire name.
pub open spec fn spec_state_code(s: Seq<char>) -> Option<int> {
    if s == "unspecified"@ {
        Some(0int)
    } else if s == "submitted"@ {
        Some(1int)
    } else if s == "working"@ {
        Some(2int)
    } else if s == "completed"@ {
        Some(3int)
    } else if s == "failed"@ {
        Some(4int)
    } else if s == "cancelled"@ {
        Some(5int)
    } else if s == "input-required"@ {
        Some(6int)
    } else if s == "rejected"@ {
        Some(7int)
    } else if s == "auth-required"@ {
        Some(8int)
    } else {
        None
    }
}

/// A state name reads back as its code.
pub proof fn lemma_state_name_round_trip(code: int)
    requires
        0 <= code <= 8,
    ensures
        spec_state_code(spec_state_name(code)) == Some(code),
{
    reveal_strlit("unspecified");
    reveal_strlit("submitted");
    reveal_strlit("working");
    reveal_strlit("completed");
    reveal_strlit("failed");
    reveal_strlit("cancelled");
    reveal_strlit("input-required");
    reveal_strlit("rejected");
    reveal_strlit("auth-required");
    assert(("unspecified"@).len() == 11);
    assert(("submitted"@).len() == 9);
    assert(("working"@).len() == 7);
    assert(("completed"@).len() == 9);
    assert(("failed"@).len() == 6);
    assert(("cancelled"@).len() == 9);
    assert(("input-required"@).len() == 14);
    assert(("rejected"@).len() == 8);
    assert(("auth-required"@).len() == 13);
    assert(("submitted"@)[0] != ("completed"@)[0]);
    assert("submitted"@ != "completed"@);
    assert(("submitted"@)[0] != ("cancelled"@)[0]);
    assert("submitted"@ != "cancelled"@);
    assert(("completed"@)[1] != ("cancelled"@)[1]);
    assert("completed"@ != "cancelled"@);
}

/// The textual-wire name of a task state code.
pub fn state_name(code: i32) -> (r: String)
    requires
        0 <= code <= 8,
    ensures
        r@ == spec_state_name(code as int),
{
    if code == 1 {
        "submitted".to_owned()
    } else if code == 2 {
        "working".to_owned()
    } else if code == 3 {
        "completed".to_owned()
    } else if code == 4 {
        "failed".to_owned()
    } else if code == 5 {
        "cancelled".to_owned()
    } else if code == 6 {
        "input-required".to_owned()
    } else if code == 7 {
        "rejected".to_owned()
    } else if code == 8 {
        "auth-required".to_owned()
    } else {
        "unspecified".to_owned()
    }
}

/// The task state code of a textual-wire name.
pub fn state_code(s: &String) -> (r: Option<i32>)
    ensures
        match r {
            Some(c) => spec_state_code(s@) == Some(c as int) && 0 <= c <= 8,
            None => spec_state_code(s@) is None,
        },
{
    if *s == "unspecified".to_owned() {
        Some(0)
    } else if *s == "submitted".to_owned() {
        Some(1)
    } else if *s == "working".to_owned() {
        Some(2)
    } else if *s == "completed".to_owned() {
        Some(3)
    } else if *s == "failed".to_owned() {
        Some(4)
    } else if *s == "cancelled".to_owned() {
        Some(5)
    } else if *s == "input-required".to_owned() {
        Some(6)
    } else if *s == "rejected".to_owned() {
        Some(7)
    } else if *s == "auth-required".to_owned() {
        Some(8)
    } else {
        None
    }
}

/// The task status a JSON value denotes. A timestamp must be readable and
/// within the range both wires can carry.
pub open spec fn status_from_json(v: JsonV) -> Option<crate::model::TaskStatusV> {
    match v {
        JsonV::Obj(fs) => match (match field_of(fs, "state"@) {
            Some(JsonV::Str(sn)) => spec_state_code(sn),
            _ => None,
        }) {
            Some(state) => match (match field_of(fs, "message"@) {
                None => Some(None),
                Some(JsonV::Null) => Some(None),
                Some(mv) => match message_from_json(mv) {
                    Some(m) => Some(Some(m)),
                    None => None,
                },
            }) {
                Some(message) => match (match field_of(fs, "timestamp"@) {
                    None => Some(None),
                    Some(JsonV::Null) => Some(None),
                    Some(JsonV::Str(ts)) => match crate::timefmt::spec_timestamp_from_text(ts) {
                        Some(t) => if t.wf() {
                            Some(Some(t))
                        } else {
                            None
                        },
                        None => None,
                    },
                    Some(_) => None,
                }) {
                    Some(timestamp) => Some(
                        crate::model::TaskStatusV { state, message, timestamp },
                    ),
                    None => None,
                },
                None => None,
            },
            None => None,
        },
        _ => None,
    }
}

/// Encodes one task status. Decoding the result yields the status back.
pub fn status_to_json(st: &crate::model::TaskStatus) -> (r: JsonValue)
    requires
        st@.wf(),
    ensures
        status_from_json(r@) == Some(st@),
{
    let mut fields: Vec<(String, JsonValue)> = Vec::new();
    fields.push(("state".to_owned(), JsonValue::Str(state_name(st.state))));
    match &st.message {
        Some(m) => {
            fields.push(("message".to_owned(), message_to_json(m)));
        },
        None => {
            fields.push(("message".to_owned(), JsonValue::Null));
        },
    }
    match &st.timestamp {
        Some(t) => {
            fields.push(("timestamp".to_owned(), JsonValue::Str(crate::timefmt::format_rfc3339(t))));
        },
        None => {
            fields.push(("timestamp".to_owned(), JsonValue::Null));
        },
    }
    let r = JsonValue::Object(Object { fields });
    proof {
        let fs = r->Object_0@.fields;
        lemma_jv_fields_view(r->Object_0.fields@);
        reveal_strlit("state");
        reveal_strlit("message");
        reveal_strlit("timestamp");
        reveal_with_fuel(field_of, 5);
        assert(fs.len() == 3);
        let d1 = fs.drop_first();
        let d2 = d1.drop_first();
        assert(fs[0].0 == "state"@);
        assert(d1[0].0 == "message"@);
        assert(d2[0].0 == "timestamp"@);
        assert(field_of(fs, "state"@) == Some(fs[0].1));
        assert(field_of(fs, "message"@) == Some(d1[0].1));
        assert(field_of(fs, "timestamp"@) == Some(d2[0].1));
        lemma_state_name_round_trip(st@.state);
        if st@.message is Some {
            assert(!(d1[0].1 is Null));
        }
        assert(status_from_json(r@) == Some(st@));
    }
    r
}

/// Decodes one task status.
pub fn status_of_json(v: &JsonValue) -> (r: Option<crate::model::TaskStatus>)
    ensures
        match r {
            Some(st) => status_from_json(v@) == Some(st@) && st@.wf(),
            None => status_from_json(v@) is None,
        },
{
    let obj = match v {
        JsonValue::Object(o) => o,
        _ => {
            return None;
        },
    };
    let state = match get_field(obj, "state") {
        Some(JsonValue::Str(sn)) => match state_code(sn) {
            Some(c) => c,
            None => {
                return None;
            },
        },
        _ => {
            return None;
        },
    };
    let message = match get_field(obj, "message") {
        None => None,
        Some(JsonValue::Null) => None,
        Some(mv) => match message_of_json(mv) {
            Some(m) => Some(m),
            None => {
                return None;
            },
        },
    };
    let timestamp = match get_field(obj, "timestamp") {
        None => None,
        Some(JsonValue::Null) => None,
        Some(JsonValue::Str(ts)) => match crate::timefmt::timestamp_from_text(ts.as_str()) {
            Some(t) => {
                if t.seconds < -62135596800i64 || t.seconds > 253402300799i64 || t.nanos < 0
                    || t.nanos >= 1000000000i32 {
                    return None;
                }
                Some(t)
            },
            None => {
                return None;
            },
        },
        Some(_) => {
            return None;
        },
    };
    let st = crate::model::TaskStatus { state, message, timestamp };
    proof {
        assert(status_from_json(v@) == Some(st@));
    }
    Some(st)
}

/// The artifact a JSON value denotes.
pub open spec fn artifact_from_json(v: JsonV) -> Option<crate::model::ArtifactV> {
    match v {
        JsonV::Obj(fs) => match req_str_field(fs, "artifactId"@) {
            Some(aid) => match str_or_empty_field(fs, "name"@) {
                Some(name) => match str_or_empty_field(fs, "description"@) {
                    Some(desc) => match (match field_of(fs, "parts"@) {
                        None => Some(Seq::<crate::model::PartV>::empty()),
                        Some(JsonV::Arr(items)) => parts_from_json(items),
                        Some(_) => None,
                    }) {
                        Some(parts) => match opt_object_field(fs, "metadata"@) {
                            Some(md) => match strings_field(fs, "extensions"@) {
                                Some(exts) => Some(
                                    crate::model::ArtifactV {
                                        artifact_id: aid,
                                        name: name,
                                        description: desc,
                                        parts: parts,
                                        metadata: md,
                                        extensions: exts,
                                    },
                                ),
                                None => None,
                            },
                            None => None,
                        },
                        None => None,
                    },
                    None => None,
                },
                None => None,
            },
            None => None,
        },
        _ => None,
    }
}

/// Encodes one artifact. Decoding the result yields the artifact back.
pub fn artifact_to_json(a: &crate::model::Artifact) -> (r: JsonValue)
    ensures
        artifact_from_json(r@) == Some(a@),
{
    let mut fields: Vec<(String, JsonValue)> = Vec::new();
    fields.push(("artifactId".to_owned(), JsonValue::Str(a.artifact_id.clone())));
    fields.push(("name".to_owned(), JsonValue::Str(a.name.clone())));
    fields.push(("description".to_owned(), JsonValue::Str(a.description.clone())));
    fields.push(("parts".to_owned(), parts_to_json(&a.parts)));
    fields.push(("metadata".to_owned(), opt_object_json(&a.metadata)));
    fields.push(("extensions".to_owned(), strings_to_json(&a.extensions)));
    let r = JsonValue::Object(Object { fields });
    proof {
        let fs = r->Object_0@.fields;
        lemma_jv_fields_view(r->Object_0.fields@);
        reveal_strlit("artifactId");
        reveal_strlit("name");
        reveal_strlit("description");
        reveal_strlit("parts");
        reveal_strlit("metadata");
        reveal_strlit("extensions");
        reveal_with_fuel(field_of, 8);
        assert(fs.len() == 6);
        assert(("artifactId"@)[0] != ("extensions"@)[0]);
        assert("artifactId"@ != "extensions"@);
        let d1 = fs.drop_first();
        let d2 = d1.drop_first();
        let d3 = d2.drop_first();
        let d4 = d3.drop_first();
        let d5 = d4.drop_first();
        assert(fs[0].0 == "artifactId"@);
        assert(d1[0].0 == "name"@);
        assert(d2[0].0 == "description"@);
        assert(d3[0].0 == "parts"@);
        assert(d4[0].0 == "metadata"@);
        assert(d5[0].0 == "extensions"@);
        assert(field_of(fs, "artifactId"@) == Some(fs[0].1));
        assert(field_of(fs, "name"@) == Some(d1[0].1));
        assert(field_of(fs, "description"@) == Some(d2[0].1));
        assert(field_of(fs, "parts"@) == Some(d3[0].1));
        assert(field_of(fs, "metadata"@) == Some(d4[0].1));
        assert(field_of(fs, "extensions"@) == Some(d5[0].1));
        assert(artifact_from_json(r@) == Some(a@));
    }
    r
}

/// Decodes one artifact.
pub fn artifact_of_json(v: &JsonValue) -> (r: Option<crate::model::Artifact>)
    ensures
        match r {
            Some(a) => artifact_from_json(v@) == Some(a@),
            None => artifact_from_json(v@) is None,
        },
{
    let obj = match v {
        JsonValue::Object(o) => o,
        _ => {
            return None;
        },
    };
    let artifact_id = match get_field(obj, "artifactId") {
        Some(JsonValue::Str(s)) => s.clone(),
        _ => {
            return None;
        },
    };
    let name = match get_field(obj, "name") {
        None => String::new(),
        Some(JsonValue::Str(s)) => s.clone(),
        Some(_) => {
            return None;
        },
    };
    let description = match get_field(obj, "description") {
        None => String::new(),
        Some(JsonValue::Str(s)) => s.clone(),
        Some(_) => {
            return None;
        },
    };
    let parts: Vec<crate::model::Part> = match get_field(obj, "parts") {
        None => Vec::new(),
        Some(JsonValue::Array(items)) => match parts_of_json(items) {
            Some(ps) => ps,
            None => {
                return None;
            },
        },
        Some(_) => {
            return None;
        },
    };
    let metadata = match get_field(obj, "metadata") {
        None => None,
        Some(JsonValue::Null) => None,
        Some(JsonValue::Object(o)) => Some(o.dup()),
        Some(_) => {
            return None;
        },
    };
    let extensions: Vec<String> = match get_field(obj, "extensions") {
        None => Vec::new(),
        Some(JsonValue::Array(items)) => match strings_of_json(items) {
            Some(ss) => ss,
            None => {
                return None;
            },
        },
        Some(_) => {
            return None;
        },
    };
    let a = crate::model::Artifact { artifact_id, name, description, parts, metadata, extensions };
    proof {
        assert(a@.parts =~= a.parts@.map_values(|p: crate::model::Part| p@));
        if a.parts@.len() == 0 {
            assert(a@.parts =~= Seq::<crate::model::PartV>::empty());
        }
        if a.extensions@.len() == 0 {
            assert(a@.extensions =~= Seq::<Seq<char>>::empty());
        }
        assert(artifact_from_json(v@) == Some(a@));
    }
    Some(a)
}

/// The messages of an array of JSON values.
pub open spec fn messages_from_json(items: Seq<JsonV>) -> Option<Seq<crate::model::MessageV>>
    decreases items.len(),
{
    if items.len() == 0 {
        Some(Seq::empty())
    } else {
        match message_from_json(items.last()) {
            Some(m) => match messages_from_json(items.drop_last()) {
                Some(ms) => Some(ms.push(m)),
                None => None,
            },
            None => None,
        }
    }
}

/// The artifacts of an array of JSON values.
pub open spec fn artifacts_from_json(items: Seq<JsonV>) -> Option<Seq<crate::model::ArtifactV>>
    decreases items.len(),
{
    if items.len() == 0 {
        Some(Seq::empty())
    } else {
        match artifact_from_json(items.last()) {
            Some(a) => match artifacts_from_json(items.drop_last()) {
                Some(aa) => Some(aa.push(a)),
                None => None,
            },
            None => None,
        }
    }
}

/// Encodes a list of messages as a JSON array.
pub fn messages_to_json(v: &Vec<crate::model::Message>) -> (r: JsonValue)
    requires
        forall|i: int| 0 <= i < v@.len() ==> (#[trigger] v@[i])@.wf(),
    ensures
        r@ matches JsonV::Arr(items) && messages_from_json(items) == Some(
            v@.map_values(|m: crate::model::Message| m@),
        ),
{
    let mut items: Vec<JsonValue> = Vec::new();
    let n = v.len();
    let mut i: usize = 0;
    proof {
        broadcast use lemma_jv_seq_view;

        assert(jv_seq_view(items@) =~= Seq::<JsonV>::empty());
        assert(v@.map_values(|m: crate::model::Message| m@).subrange(0, 0) =~= Seq::<
            crate::model::MessageV,
        >::empty());
    }
    while i < n
        invariant
            n == v@.len(),
            forall|k: int| 0 <= k < n ==> (#[trigger] v@[k])@.wf(),
            i <= n,
            items@.len() == i,
            messages_from_json(jv_seq_view(items@)) == Some(
                v@.map_values(|m: crate::model::Message| m@).subrange(0, i as int),
            ),
        decreases n - i,
    {
        let ghost pre = jv_seq_view(items@);
        items.push(message_to_json(&v[i]));
        proof {
            broadcast use lemma_jv_seq_view;

            let cur = jv_seq_view(items@);
            assert(cur.drop_last() =~= pre);
            let full = v@.map_values(|m: crate::model::Message| m@);
            assert(full.subrange(0, i + 1 as int).drop_last() =~= full.subrange(0, i as int));
            assert(full.subrange(0, i + 1 as int).last() == full[i as int]);
        }
        i += 1;
    }
    proof {
        let full = v@.map_values(|m: crate::model::Message| m@);
        assert(full.subrange(0, n as int) =~= full);
    }
    JsonValue::Array(items)
}

/// Decodes an array of JSON values as messages.
pub fn messages_of_json(items: &Vec<JsonValue>) -> (r: Option<Vec<crate::model::Message>>)
    ensures
        match r {
            Some(ms) => messages_from_json(jv_seq_view(items@)) == Some(
                ms@.map_values(|m: crate::model::Message| m@),
            ) && forall|i: int| 0 <= i < ms@.len() ==> (#[trigger] ms@[i])@.wf(),
            None => messages_from_json(jv_seq_view(items@)) is None,
        },
{
    proof {
        broadcast use lemma_jv_seq_view;

    }
    let ghost views = jv_seq_view(items@);
    let mut out: Vec<crate::model::Message> = Vec::new();
    let n = items.len();
    let mut i: usize = 0;
    proof {
        assert(views.subrange(0, 0) =~= Seq::<JsonV>::empty());
        assert(out@.map_values(|m: crate::model::Message| m@) =~= Seq::<
            crate::model::MessageV,
        >::empty());
    }
    while i < n
        invariant
            n == items@.len(),
            i <= n,
            views == jv_seq_view(items@),
            views.len() == n,
            forall|k: int| 0 <= k < n ==> views[k] == crate::object::jv_view(items@[k]),
            messages_from_json(views.subrange(0, i as int)) == Some(
                out@.map_values(|m: crate::model::Message| m@),
            ),
            forall|k: int| 0 <= k < out@.len() ==> (#[trigger] out@[k])@.wf(),
        decreases n - i,
    {
        let ghost pre = out@.map_values(|m: crate::model::Message| m@);
        match message_of_json(&items[i]) {
            Some(m) => {
                out.push(m);
            },
            None => {
                proof {
                    lemma_messages_from_json_bad(views, i as int);
                }
                return None;
            },
        }
        proof {
            let cur = views.subrange(0, i + 1 as int);
            assert(cur.drop_last() =~= views.subrange(0, i as int));
            assert(cur.last() == views[i as int]);
            assert(out@.map_values(|m: crate::model::Message| m@) =~= pre.push(out@.last()@));
        }
        i += 1;
    }
    proof {
        assert(views.subrange(0, n as int) =~= views);
    }
    Some(out)
}

/// An undecodable element anywhere spoils a message array.
proof fn lemma_messages_from_json_bad(views: Seq<JsonV>, i: int)
    requires
        0 <= i < views.len(),
        message_from_json(views[i]) is None,
    ensures
        messages_from_json(views) is None,
    decreases views.len(),
{
    if views.len() > 0 {
        if i < views.len() - 1 {
            lemma_messages_from_json_bad(views.drop_last(), i);
        }
    }
}

/// Encodes a list of artifacts as a JSON array.
pub fn artifacts_to_json(v: &Vec<crate::model::Artifact>) -> (r: JsonValue)
    ensures
        r@ matches JsonV::Arr(items) && artifacts_from_json(items) == Some(
            v@.map_values(|a: crate::model::Artifact| a@),
        ),
{
    let mut items: Vec<JsonValue> = Vec::new();
    let n = v.len();
    let mut i: usize = 0;
    proof {
        broadcast use lemma_jv_seq_view;

        assert(jv_seq_view(items@) =~= Seq::<JsonV>::empty());
        assert(v@.map_values(|a: crate::model::Artifact| a@).subrange(0, 0) =~= Seq::<
            crate::model::ArtifactV,
        >::empty());
    }
    while i < n
        invariant
            n == v@.len(),
            i <= n,
            items@.len() == i,
            artifacts_from_json(jv_seq_view(items@)) == Some(
                v@.map_values(|a: crate::model::Artifact| a@).subrange(0, i as int),
            ),
        decreases n - i,
    {
        let ghost pre = jv_seq_view(items@);
        items.push(artifact_to_json(&v[i]));
        proof {
            broadcast use lemma_jv_seq_view;

            let cur = jv_seq_view(items@);
            assert(cur.drop_last() =~= pre);
            let full = v@.map_values(|a: crate::model::Artifact| a@);
            assert(full.subrange(0, i + 1 as int).drop_last() =~= full.subrange(0, i as int));
            assert(full.subrange(0, i + 1 as int).last() == full[i as int]);
        }
        i += 1;
    }
    proof {
        let full = v@.map_values(|a: crate::model::Artifact| a@);
        assert(full.subrange(0, n as int) =~= full);
    }
    JsonValue::Array(items)
}

/// Decodes an array of JSON values as artifacts.
pub fn artifacts_of_json(items: &Vec<JsonValue>) -> (r: Option<Vec<crate::model::Artifact>>)
    ensures
        match r {
            Some(aa) => artifacts_from_json(jv_seq_view(items@)) == Some(
                aa@.map_values(|a: crate::model::Artifact| a@),
            ),
            None => artifacts_from_json(jv_seq_view(items@)) is None,
        },
{
    proof {
        broadcast use lemma_jv_seq_view;

    }
    let ghost views = jv_seq_view(items@);
    let mut out: Vec<crate::model::Artifact> = Vec::new();
    let n = items.len();
    let mut i: usize = 0;
    proof {
        assert(views.subrange(0, 0) =~= Seq::<JsonV>::empty());
        assert(out@.map_values(|a: crate::model::Artifact| a@) =~= Seq::<
            crate::model::ArtifactV,
        >::empty());
    }
    while i < n
        invariant
            n == items@.len(),
            i <= n,
            views == jv_seq_view(items@),
            views.len() == n,
            forall|k: int| 0 <= k < n ==> views[k] == crate::object::jv_view(items@[k]),
            artifacts_from_json(views.subrange(0, i as int)) == Some(
                out@.map_values(|a: crate::model::Artifact| a@),
            ),
        decreases n - i,
    {
        let ghost pre = out@.map_values(|a: crate::model::Artifact| a@);
        match artifact_of_json(&items[i]) {
            Some(a) => {
                out.push(a);
            },
            None => {
                proof {
                    lemma_artifacts_from_json_bad(views, i as int);
                }
                return None;
            },
        }
        proof {
            let cur = views.subrange(0, i + 1 as int);
            assert(cur.drop_last() =~= views.subrange(0, i as int));
            assert(cur.last() == views[i as int]);
            assert(out@.map_values(|a: crate::model::Artifact| a@) =~= pre.push(out@.last()@));
        }
        i += 1;
    }
    proof {
        assert(views.subrange(0, n as int) =~= views);
    }
    Some(out)
}

/// An undecodable element anywhere spoils an artifact array.
proof fn lemma_artifacts_from_json_bad(views: Seq<JsonV>, i: int)
    requires
        0 <= i < views.len(),
        artifact_from_json(views[i]) is None,
    ensures
        artifacts_from_json(views) is None,
    decreases views.len(),
{
    if views.len() > 0 {
        if i < views.len() - 1 {
            lemma_artifacts_from_json_bad(views.drop_last(), i);
        }
    }
}

/// The task a JSON value denotes.
pub open spec fn task_from_json(v: JsonV) -> Option<crate::model::TaskV> {
    match v {
        JsonV::Obj(fs) => match req_str_field(fs, "id"@) {
            Some(id) => match req_str_field(fs, "contextId"@) {
                Some(cid) => match (match field_of(fs, "status"@) {
                    None => Some(None),
                    Some(JsonV::Null) => Some(None),
                    Some(sv) => match status_from_json(sv) {
                        Some(st) => Some(Some(st)),
                        None => None,
                    },
                }) {
                    Some(status) => match (match field_of(fs, "artifacts"@) {
                        None => Some(Seq::<crate::model::ArtifactV>::empty()),
                        Some(JsonV::Arr(items)) => artifacts_from_json(items),
                        Some(_) => None,
                    }) {
                        Some(artifacts) => match (match field_of(fs, "history"@) {
                            None => Some(Seq::<crate::model::MessageV>::empty()),
                            Some(JsonV::Arr(items)) => messages_from_json(items),
                            Some(_) => None,
                        }) {
                            Some(history) => match opt_object_field(fs, "metadata"@) {
                                Some(md) => Some(
                                    crate::model::TaskV {
                                        id: id,
                                        context_id: cid,
                                        status: status,
                                        artifacts: artifacts,
                                        history: history,
                                        metadata: md,
                                    },
                                ),
                                None => None,
                            },
                            None => None,
                        },
                        None => None,
                    },
                    None => None,
                },
                None => None,
            },
            None => None,
        },
        _ => None,
    }
}

/// Encodes one task. Decoding the result yields the task back.
pub fn task_to_json(t: &crate::model::Task) -> (r: JsonValue)
    requires
        t@.wf(),
    ensures
        task_from_json(r@) == Some(t@),
{
    let mut fields: Vec<(String, JsonValue)> = Vec::new();
    fields.push(("id".to_owned(), JsonValue::Str(t.id.clone())));
    fields.push(("contextId".to_owned(), JsonValue::Str(t.context_id.clone())));
    match &t.status {
        Some(st) => {
            fields.push(("status".to_owned(), status_to_json(st)));
        },
        None => {
            fields.push(("status".to_owned(), JsonValue::Null));
        },
    }
    fields.push(("artifacts".to_owned(), artifacts_to_json(&t.artifacts)));
    proof {
        assert forall|i: int| 0 <= i < t.history@.len() implies (#[trigger] t.history@[i])@.wf() by {
            assert(t@.history[i] == t.history@[i]@);
        }
    }
    fields.push(("history".to_owned(), messages_to_json(&t.history)));
    fields.push(("metadata".to_owned(), opt_object_json(&t.metadata)));
    let r = JsonValue::Object(Object { fields });
    proof {
        let fs = r->Object_0@.fields;
        lemma_jv_fields_view(r->Object_0.fields@);
        reveal_strlit("id");
        reveal_strlit("contextId");
        reveal_strlit("status");
        reveal_strlit("artifacts");
        reveal_strlit("history");
        reveal_strlit("metadata");
        reveal_with_fuel(field_of, 8);
        assert(fs.len() == 6);
        assert(("contextId"@)[0] != ("artifacts"@)[0]);
        assert("contextId"@ != "artifacts"@);
        let d1 = fs.drop_first();
        let d2 = d1.drop_first();
        let d3 = d2.drop_first();
        let d4 = d3.drop_first();
        let d5 = d4.drop_first();
        assert(fs[0].0 == "id"@);
        assert(d1[0].0 == "contextId"@);
        assert(d2[0].0 == "status"@);
        assert(d3[0].0 == "artifacts"@);
        assert(d4[0].0 == "history"@);
        assert(d5[0].0 == "metadata"@);
        assert(field_of(fs, "id"@) == Some(fs[0].1));
        assert(field_of(fs, "contextId"@) == Some(d1[0].1));
        assert(field_of(fs, "status"@) == Some(d2[0].1));
        assert(field_of(fs, "artifacts"@) == Some(d3[0].1));
        assert(field_of(fs, "history"@) == Some(d4[0].1));
        assert(field_of(fs, "metadata"@) == Some(d5[0].1));
        if t@.status is Some {
            assert(!(d2[0].1 is Null));
        }
        assert(task_from_json(r@) == Some(t@));
    }
    r
}

/// Decodes one task.
pub fn task_of_json(v: &JsonValue) -> (r: Option<crate::model::Task>)
    ensures
        match r {
            Some(t) => task_from_json(v@) == Some(t@) && t@.wf(),
            None => task_from_json(v@) is None,
        },
{
    let obj = match v {
        JsonValue::Object(o) => o,
        _ => {
            return None;
        },
    };
    let id = match get_field(obj, "id") {
        Some(JsonValue::Str(s)) => s.clone(),
        _ => {
            return None;
        },
    };
    let context_id = match get_field(obj, "contextId") {
        Some(JsonValue::Str(s)) => s.clone(),
        _ => {
            return None;
        },
    };
    let status = match get_field(obj, "status") {
        None => None,
        Some(JsonValue::Null) => None,
        Some(sv) => match status_of_json(sv) {
            Some(st) => Some(st),
            None => {
                return None;
            },
        },
    };
    let artifacts: Vec<crate::model::Artifact> = match get_field(obj, "artifacts") {
        None => Vec::new(),
        Some(JsonValue::Array(items)) => match artifacts_of_json(items) {
            Some(aa) => aa,
            None => {
                return None;
            },
        },
        Some(_) => {
            return None;
        },
    };
    let history: Vec<crate::model::Message> = match get_field(obj, "history") {
        None => Vec::new(),
        Some(JsonValue::Array(items)) => match messages_of_json(items) {
            Some(ms) => ms,
            None => {
                return None;
            },
        },
        Some(_) => {
            return None;
        },
    };
    let metadata = match get_field(obj, "metadata") {
        None => None,
        Some(JsonValue::Null) => None,
        Some(JsonValue::Object(o)) => Some(o.dup()),
        Some(_) => {
            return None;
        },
    };
    let t = crate::model::Task { id, context_id, status, artifacts, history, metadata };
    proof {
        if t.artifacts@.len() == 0 {
            assert(t@.artifacts =~= Seq::<crate::model::ArtifactV>::empty());
        }
        if t.history@.len() == 0 {
            assert(t@.history =~= Seq::<crate::model::MessageV>::empty());
        }
        assert(task_from_json(v@) == Some(t@));
    }
    Some(t)
}

/// The push-notification authentication info a JSON value denotes.
pub open spec fn auth_info_from_json(v: JsonV) -> Option<
    crate::model::PushNotificationAuthenticationInfoV,
> {
    match v {
        JsonV::Obj(fs) => match strings_field(fs, "schemes"@) {
            Some(schemes) => match req_str_field(fs, "credentials"@) {
                Some(creds) => Some(
                    crate::model::PushNotificationAuthenticationInfoV {
                        schemes: schemes,
                        credentials: creds,
                    },
                ),
                None => None,
            },
            None => None,
        },
        _ => None,
    }
}

/// Encodes push-notification authentication info.
pub fn auth_info_to_json(a: &crate::model::PushNotificationAuthenticationInfo) -> (r: JsonValue)
    ensures
        auth_info_from_json(r@) == Some(a@),
{
    let mut fields: Vec<(String, JsonValue)> = Vec::new();
    fields.push(("schemes".to_owned(), strings_to_json(&a.schemes)));
    fields.push(("credentials".to_owned(), JsonValue::Str(a.credentials.clone())));
    let r = JsonValue::Object(Object { fields });
    proof {
        let fs = r->Object_0@.fields;
        lemma_jv_fields_view(r->Object_0.fields@);
        reveal_strlit("schemes");
        reveal_strlit("credentials");
        reveal_with_fuel(field_of, 4);
        assert(fs.len() == 2);
        let d1 = fs.drop_first();
        assert(fs[0].0 == "schemes"@);
        assert(d1[0].0 == "credentials"@);
        assert(field_of(fs, "schemes"@) == Some(fs[0].1));
        assert(field_of(fs, "credentials"@) == Some(d1[0].1));
        assert(auth_info_from_json(r@) == Some(a@));
    }
    r
}

/// Decodes push-notification authentication info.
pub fn auth_info_of_json(v: &JsonValue) -> (r: Option<
    crate::model::PushNotificationAuthenticationInfo,
>)
    ensures
        match r {
            Some(a) => auth_info_from_json(v@) == Some(a@),
            None => auth_info_from_json(v@) is None,
        },
{
    let obj = match v {
        JsonValue::Object(o) => o,
        _ => {
            return None;
        },
    };
    let schemes: Vec<String> = match get_field(obj, "schemes") {
        None => Vec::new(),
        Some(JsonValue::Array(items)) => match strings_of_json(items) {
            Some(ss) => ss,
            None => {
                return None;
            },
        },
        Some(_) => {
            return None;
        },
    };
    let credentials = match get_field(obj, "credentials") {
        Some(JsonValue::Str(s)) => s.clone(),
        _ => {
            return None;
        },
    };
    let a = crate::model::PushNotificationAuthenticationInfo { schemes, credentials };
    proof {
        if a.schemes@.len() == 0 {
            assert(a@.schemes =~= Seq::<Seq<char>>::empty());
        }
        assert(auth_info_from_json(v@) == Some(a@));
    }
    Some(a)
}

/// The push-notification configuration a JSON value denotes.
pub open spec fn push_config_from_json(v: JsonV) -> Option<crate::model::PushNotificationConfigV> {
    match v {
        JsonV::Obj(fs) => match req_str_field(fs, "id"@) {
            Some(id) => match req_str_field(fs, "url"@) {
                Some(url) => match req_str_field(fs, "token"@) {
                    Some(token) => match (match field_of(fs, "authentication"@) {
                        None => Some(None),
                        Some(JsonV::Null) => Some(None),
                        Some(av) => match auth_info_from_json(av) {
                            Some(a) => Some(Some(a)),
                            None => None,
                        },
                    }) {
                        Some(auth) => Some(
                            crate::model::PushNotificationConfigV {
                                id: id,
                                url: url,
                                token: token,
                                authentication: auth,
                            },
                        ),
                        None => None,
                    },
                    None => None,
                },
                None => None,
            },
            None => None,
        },
        _ => None,
    }
}

/// Encodes a push-notification configuration.
pub fn push_config_to_json(p: &crate::model::PushNotificationConfig) -> (r: JsonValue)
    ensures
        push_config_from_json(r@) == Some(p@),
{
    let mut fields: Vec<(String, JsonValue)> = Vec::new();
    fields.push(("id".to_owned(), JsonValue::Str(p.id.clone())));
    fields.push(("url".to_owned(), JsonValue::Str(p.url.clone())));
    fields.push(("token".to_owned(), JsonValue::Str(p.token.clone())));
    match &p.authentication {
        Some(a) => {
            fields.push(("authentication".to_owned(), auth_info_to_json(a)));
        },
        None => {
            fields.push(("authentication".to_owned(), JsonValue::Null));
        },
    }
    let r = JsonValue::Object(Object { fields });
    proof {
        let fs = r->Object_0@.fields;
        lemma_jv_fields_view(r->Object_0.fields@);
        reveal_strlit("id");
        reveal_strlit("url");
        reveal_strlit("token");
        reveal_strlit("authentication");
        reveal_with_fuel(field_of, 6);
        assert(fs.len() == 4);
        let d1 = fs.drop_first();
        let d2 = d1.drop_first();
        let d3 = d2.drop_first();
        assert(fs[0].0 == "id"@);
        assert(d1[0].0 == "url"@);
        assert(d2[0].0 == "token"@);
        assert(d3[0].0 == "authentication"@);
        assert(("id"@).len() != ("url"@).len() || ("id"@)[0] != ("url"@)[0]);
        assert("id"@ != "url"@);
        assert(field_of(fs, "id"@) == Some(fs[0].1));
        assert(field_of(fs, "url"@) == Some(d1[0].1));
        assert(field_of(fs, "token"@) == Some(d2[0].1));
        assert(field_of(fs, "authentication"@) == Some(d3[0].1));
        if p@.authentication is Some {
            assert(!(d3[0].1 is Null));
        }
        assert(push_config_from_json(r@) == Some(p@));
    }
    r
}

/// Decodes a push-notification configuration.
pub fn push_config_of_json(v: &JsonValue) -> (r: Option<crate::model::PushNotificationConfig>)
    ensures
        match r {
            Some(p) => push_config_from_json(v@) == Some(p@),
            None => push_config_from_json(v@) is None,
        },
{
    let obj = match v {
        JsonValue::Object(o) => o,
        _ => {
            return None;
        },
    };
    let id = match get_field(obj, "id") {
        Some(JsonValue::Str(s)) => s.clone(),
        _ => {
            return None;
        },
    };
    let url = match get_field(obj, "url") {
        Some(JsonValue::Str(s)) => s.clone(),
        _ => {
            return None;
        },
    };
    let token = match get_field(obj, "token") {
        Some(JsonValue::Str(s)) => s.clone(),
        _ => {
            return None;
        },
    };
    let authentication = match get_field(obj, "authentication") {
        None => None,
        Some(JsonValue::Null) => None,
        Some(av) => match auth_info_of_json(av) {
            Some(a) => Some(a),
            None => {
                return None;
            },
        },
    };
    let p = crate::model::PushNotificationConfig { id, url, token, authentication };
    proof {
        assert(push_config_from_json(v@) == Some(p@));
    }
    Some(p)
}

/// The send configuration a JSON value denotes. The history length must be
/// a plain decimal within i32 range.
pub open spec fn config_from_json(v: JsonV) -> Option<crate::model::SendMessageConfigurationV> {
    match v {
        JsonV::Obj(fs) => match strings_field(fs, "acceptedOutputModes"@) {
            Some(modes) => match (match field_of(fs, "pushNotification"@) {
                None => Some(None),
                Some(JsonV::Null) => Some(None),
                Some(pv) => match push_config_from_json(pv) {
                    Some(p) => Some(Some(p)),
                    None => None,
                },
            }) {
                Some(push) => match (match field_of(fs, "historyLength"@) {
                    Some(JsonV::Num(txt)) => match int_text_val(txt) {
                        Some(h) => if -0x80000000 <= h <= 0x7fffffff {
                            Some(h)
                        } else {
                            None
                        },
                        None => None,
                    },
                    _ => None,
                }) {
                    Some(hl) => match (match field_of(fs, "blocking"@) {
                        Some(JsonV::Bool(b)) => Some(b),
                        _ => None,
                    }) {
                        Some(blocking) => Some(
                            crate::model::SendMessageConfigurationV {
                                accepted_output_modes: modes,
                                push_notification: push,
                                history_length: hl,
                                blocking: blocking,
                            },
                        ),
                        None => None,
                    },
                    None => None,
                },
                None => None,
            },
            None => None,
        },
        _ => None,
    }
}

/// Encodes a send configuration.
pub fn config_to_json(c: &crate::model::SendMessageConfiguration) -> (r: JsonValue)
    ensures
        config_from_json(r@) == Some(c@),
{
    let mut fields: Vec<(String, JsonValue)> = Vec::new();
    fields.push(("acceptedOutputModes".to_owned(), strings_to_json(&c.accepted_output_modes)));
    match &c.push_notification {
        Some(p) => {
            fields.push(("pushNotification".to_owned(), push_config_to_json(p)));
        },
        None => {
            fields.push(("pushNotification".to_owned(), JsonValue::Null));
        },
    }
    fields.push(("historyLength".to_owned(), JsonValue::Number(int_text(c.history_length as i64))));
    fields.push(("blocking".to_owned(), JsonValue::Bool(c.blocking)));
    let r = JsonValue::Object(Object { fields });
    proof {
        let fs = r->Object_0@.fields;
        lemma_jv_fields_view(r->Object_0.fields@);
        reveal_strlit("acceptedOutputModes");
        reveal_strlit("pushNotification");
        reveal_strlit("historyLength");
        reveal_strlit("blocking");
        reveal_with_fuel(field_of, 6);
        assert(fs.len() == 4);
        let d1 = fs.drop_first();
        let d2 = d1.drop_first();
        let d3 = d2.drop_first();
        assert(fs[0].0 == "acceptedOutputModes"@);
        assert(d1[0].0 == "pushNotification"@);
        assert(d2[0].0 == "historyLength"@);
        assert(d3[0].0 == "blocking"@);
        assert(field_of(fs, "acceptedOutputModes"@) == Some(fs[0].1));
        assert(field_of(fs, "pushNotification"@) == Some(d1[0].1));
        assert(field_of(fs, "historyLength"@) == Some(d2[0].1));
        assert(field_of(fs, "blocking"@) == Some(d3[0].1));
        lemma_int_text_round_trip(c.history_length as int);
        if c@.push_notification is Some {
            assert(!(d1[0].1 is Null));
        }
        assert(config_from_json(r@) == Some(c@));
    }
    r
}

/// Decodes a send configuration.
pub fn config_of_json(v: &JsonValue) -> (r: Option<crate::model::SendMessageConfiguration>)
    ensures
        match r {
            Some(c) => config_from_json(v@) == Some(c@),
            None => config_from_json(v@) is None,
        },
{
    let obj = match v {
        JsonValue::Object(o) => o,
        _ => {
            return None;
        },
    };
    let accepted_output_modes: Vec<String> = match get_field(obj, "acceptedOutputModes") {
        None => Vec::new(),
        Some(JsonValue::Array(items)) => match strings_of_json(items) {
            Some(ss) => ss,
            None => {
                return None;
            },
        },
        Some(_) => {
            return None;
        },
    };
    let push_notification = match get_field(obj, "pushNotification") {
        None => None,
        Some(JsonValue::Null) => None,
        Some(pv) => match push_config_of_json(pv) {
            Some(p) => Some(p),
            None => {
                return None;
            },
        },
    };
    let history_length: i32 = match get_field(obj, "historyLength") {
        Some(JsonValue::Number(txt)) => match parse_int_text(txt.as_str()) {
            Some(h) => {
                if h < -0x80000000i64 || h > 0x7fffffffi64 {
                    return None;
                }
                h as i32
            },
            None => {
                return None;
            },
        },
        _ => {
            return None;
        },
    };
    let blocking = match get_field(obj, "blocking") {
        Some(JsonValue::Bool(b)) => *b,
        _ => {
            return None;
        },
    };
    let c = crate::model::SendMessageConfiguration {
        accepted_output_modes,
        push_notification,
        history_length,
        blocking,
    };
    proof {
        if c.accepted_output_modes@.len() == 0 {
            assert(c@.accepted_output_modes =~= Seq::<Seq<char>>::empty());
        }
        assert(config_from_json(v@) == Some(c@));
    }
    Some(c)
}

/// A lookup skips a leading field of a different name.
proof fn lemma_field_of_behind(fields: Seq<(Seq<char>, JsonV)>, key: Seq<char>)
    requires
        fields.len() > 0,
        fields[0].0 != key,
    ensures
        field_of(fields, key) == field_of(fields.drop_first(), key),
{
}

/// The send request a JSON value denotes.
pub open spec fn send_request_from_json(v: JsonV) -> Option<crate::model::SendMessageRequestV> {
    match v {
        JsonV::Obj(fs) => match (match field_of(fs, "message"@) {
            None => Some(None),
            Some(JsonV::Null) => Some(None),
            Some(mv) => match message_from_json(mv) {
                Some(m) => Some(Some(m)),
                None => None,
            },
        }) {
            Some(message) => match (match field_of(fs, "configuration"@) {
                None => Some(None),
                Some(JsonV::Null) => Some(None),
                Some(cv) => match config_from_json(cv) {
                    Some(c) => Some(Some(c)),
                    None => None,
                },
            }) {
                Some(configuration) => match opt_object_field(fs, "metadata"@) {
                    Some(md) => Some(
                        crate::model::SendMessageRequestV {
                            message: message,
                            configuration: configuration,
                            metadata: md,
                        },
                    ),
                    None => None,
                },
                None => None,
            },
            None => None,
        },
        _ => None,
    }
}

/// Encodes a send request. Decoding the result yields the request back.
pub fn send_request_to_json(q: &crate::model::SendMessageRequest) -> (r: JsonValue)
    requires
        match q@.message {
            Some(m) => m.wf(),
            None => true,
        },
    ensures
        send_request_from_json(r@) == Some(q@),
{
    let mut fields: Vec<(String, JsonValue)> = Vec::new();
    match &q.message {
        Some(m) => {
            fields.push(("message".to_owned(), message_to_json(m)));
        },
        None => {
            fields.push(("message".to_owned(), JsonValue::Null));
        },
    }
    match &q.configuration {
        Some(c) => {
            fields.push(("configuration".to_owned(), config_to_json(c)));
        },
        None => {
            fields.push(("configuration".to_owned(), JsonValue::Null));
        },
    }
    fields.push(("metadata".to_owned(), opt_object_json(&q.metadata)));
    let r = JsonValue::Object(Object { fields });
    proof {
        let fs = r->Object_0@.fields;
        lemma_jv_fields_view(r->Object_0.fields@);
        reveal_strlit("message");
        reveal_strlit("configuration");
        reveal_strlit("metadata");
        reveal_with_fuel(field_of, 5);
        assert(fs.len() == 3);
        let d1 = fs.drop_first();
        let d2 = d1.drop_first();
        assert(fs[0].0 == "message"@);
        assert(d1[0].0 == "configuration"@);
        assert(d2[0].0 == "metadata"@);
        assert(field_of(fs, "message"@) == Some(fs[0].1));
        assert(field_of(fs, "configuration"@) == Some(d1[0].1));
        assert(field_of(fs, "metadata"@) == Some(d2[0].1));
        if q@.message is Some {
            assert(!(fs[0].1 is Null));
        }
        if q@.configuration is Some {
            assert(!(d1[0].1 is Null));
        }
        assert(send_request_from_json(r@) == Some(q@));
    }
    r
}

/// Decodes a send request.
pub fn send_request_of_json(v: &JsonValue) -> (r: Option<crate::model::SendMessageRequest>)
    ensures
        match r {
            Some(q) => send_request_from_json(v@) == Some(q@) && match q@.message {
                Some(m) => m.wf(),
                None => true,
            },
            None => send_request_from_json(v@) is None,
        },
{
    let obj = match v {
        JsonValue::Object(o) => o,
        _ => {
            return None;
        },
    };
    let message = match get_field(obj, "message") {
        None => None,
        Some(JsonValue::Null) => None,
        Some(mv) => match message_of_json(mv) {
            Some(m) => Some(m),
            None => {
                return None;
            },
        },
    };
    let configuration = match get_field(obj, "configuration") {
        None => None,
        Some(JsonValue::Null) => None,
        Some(cv) => match config_of_json(cv) {
            Some(c) => Some(c),
            None => {
                return None;
            },
        },
    };
    let metadata = match get_field(obj, "metadata") {
        None => None,
        Some(JsonValue::Null) => None,
        Some(JsonValue::Object(o)) => Some(o.dup()),
        Some(_) => {
            return None;
        },
    };
    let q = crate::model::SendMessageRequest { message, configuration, metadata };
    proof {
        assert(send_request_from_json(v@) == Some(q@));
    }
    Some(q)
}

/// The send response payload a JSON value denotes: a `kind`-tagged task or
/// message.
pub open spec fn payload_from_json(v: JsonV) -> Option<crate::model::SendMessageResponsePayloadV> {
    match v {
        JsonV::Obj(fs) => match field_of(fs, "kind"@) {
            Some(JsonV::Str(k)) => if k == "task"@ {
                match task_from_json(v) {
                    Some(t) => Some(crate::model::SendMessageResponsePayloadV::Task(t)),
                    None => None,
                }
            } else if k == "message"@ {
                match message_from_json(v) {
                    Some(m) => Some(crate::model::SendMessageResponsePayloadV::Message(m)),
                    None => None,
                }
            } else {
                None
            },
            _ => None,
        },
        _ => None,
    }
}

/// Encodes a send response payload: the entity's fields behind a leading
/// `kind` tag. Decoding the result yields the payload back.
pub fn payload_to_json(p: &crate::model::SendMessageResponsePayload) -> (r: JsonValue)
    requires
        match p@ {
            crate::model::SendMessageResponsePayloadV::Task(t) => t.wf(),
            crate::model::SendMessageResponsePayloadV::Message(m) => m.wf(),
        },
    ensures
        payload_from_json(r@) == Some(p@),
{
    match p {
        crate::model::SendMessageResponsePayload::Task(t) => {
            let tv = task_to_json(t);
            let inner = match tv {
                JsonValue::Object(o) => o,
                _ => {
                    proof {
                        assert(false);
                    }
                    unreached()
                },
            };
            let mut fields: Vec<(String, JsonValue)> = Vec::new();
            fields.push(("kind".to_owned(), JsonValue::Str("task".to_owned())));
            let ghost head = fields@;
            let mut rest = inner.fields;
            let ghost inner_fields = jv_fields_view(rest@);
            proof {
                lemma_jv_fields_view(rest@);
            }
            fields.append(&mut rest);
            let r = JsonValue::Object(Object { fields });
            proof {
                let fs = r->Object_0@.fields;
                lemma_jv_fields_view(r->Object_0.fields@);
                lemma_jv_fields_view_concat(head, fs, inner_fields);
                reveal_strlit("kind");
                reveal_strlit("task");
                reveal_strlit("message");
                reveal_strlit("id");
                reveal_strlit("contextId");
                reveal_strlit("status");
                reveal_strlit("artifacts");
                reveal_strlit("history");
                reveal_strlit("metadata");
                reveal_with_fuel(field_of, 3);
                assert(fs.len() == inner_fields.len() + 1);
                assert(fs[0] == ("kind"@, JsonV::Str("task"@)));
                assert(fs.drop_first() =~= inner_fields);
                assert(field_of(fs, "kind"@) == Some(JsonV::Str("task"@)));
                assert(("task"@)[0] != ("message"@)[0] || ("task"@).len() != ("message"@).len());
                assert("task"@ != "message"@);
                assert(("kind"@).len() == 4);
                assert(("id"@).len() == 2);
                assert(("contextId"@).len() == 9);
                assert(("status"@).len() == 6);
                assert(("artifacts"@).len() == 9);
                assert(("history"@).len() == 7);
                assert(("metadata"@).len() == 8);
                lemma_field_of_behind(fs, "id"@);
                lemma_field_of_behind(fs, "contextId"@);
                lemma_field_of_behind(fs, "status"@);
                lemma_field_of_behind(fs, "artifacts"@);
                lemma_field_of_behind(fs, "history"@);
                lemma_field_of_behind(fs, "metadata"@);
                assert(task_from_json(JsonV::Obj(fs)) == task_from_json(JsonV::Obj(inner_fields)));
                assert(payload_from_json(r@) == Some(p@));
            }
            r
        },
        crate::model::SendMessageResponsePayload::Message(m) => {
            let mv = message_to_json(m);
            let inner = match mv {
                JsonValue::Object(o) => o,
                _ => {
                    proof {
                        assert(false);
                    }
                    unreached()
                },
            };
            let mut fields: Vec<(String, JsonValue)> = Vec::new();
            fields.push(("kind".to_owned(), JsonValue::Str("message".to_owned())));
            let ghost head = fields@;
            let mut rest = inner.fields;
            let ghost inner_fields = jv_fields_view(rest@);
            proof {
                lemma_jv_fields_view(rest@);
            }
            fields.append(&mut rest);
            let r = JsonValue::Object(Object { fields });
            proof {
                let fs = r->Object_0@.fields;
                lemma_jv_fields_view(r->Object_0.fields@);
                lemma_jv_fields_view_concat(head, fs, inner_fields);
                reveal_strlit("kind");
                reveal_strlit("task");
                reveal_strlit("message");
                reveal_strlit("messageId");
                reveal_strlit("contextId");
                reveal_strlit("taskId");
                reveal_strlit("role");
                reveal_strlit("parts");
                reveal_strlit("metadata");
                reveal_strlit("extensions");
                reveal_with_fuel(field_of, 3);
                assert(fs.len() == inner_fields.len() + 1);
                assert(fs[0] == ("kind"@, JsonV::Str("message"@)));
                assert(fs.drop_first() =~= inner_fields);
                assert(field_of(fs, "kind"@) == Some(JsonV::Str("message"@)));
                assert(("task"@).len() != ("message"@).len());
                assert("task"@ != "message"@);
                assert(("kind"@).len() == 4);
                assert(("messageId"@).len() == 9);
                assert(("contextId"@).len() == 9);
                assert(("taskId"@).len() == 6);
                assert(("role"@).len() == 4);
                assert(("parts"@).len() == 5);
                assert(("metadata"@).len() == 8);
                assert(("extensions"@).len() == 10);
                assert(("kind"@)[0] != ("role"@)[0]);
                assert("kind"@ != "role"@);
                lemma_field_of_behind(fs, "messageId"@);
                lemma_field_of_behind(fs, "contextId"@);
                lemma_field_of_behind(fs, "taskId"@);
                lemma_field_of_behind(fs, "role"@);
                lemma_field_of_behind(fs, "parts"@);
                lemma_field_of_behind(fs, "metadata"@);
                lemma_field_of_behind(fs, "extensions"@);
                assert(message_from_json(JsonV::Obj(fs)) == message_from_json(
                    JsonV::Obj(inner_fields),
                ));
                assert(payload_from_json(r@) == Some(p@));
            }
            r
        },
    }
}

/// The views of a concatenation: a known head plus a known tail.
proof fn lemma_jv_fields_view_concat(
    head: Seq<(String, JsonValue)>,
    combined: Seq<(Seq<char>, JsonV)>,
    tail_views: Seq<(Seq<char>, JsonV)>,
)
    requires
        combined.len() == head.len() + tail_views.len(),
        forall|i: int|
            0 <= i < head.len() ==> #[trigger] combined[i] == (
            head[i].0@,
            crate::object::jv_view(head[i].1),
            ),
        forall|i: int|
            head.len() <= i < combined.len() ==> #[trigger] combined[i] == tail_views[i
                - head.len()],
    ensures
        combined.skip(head.len() as int) =~= tail_views,
{
}

/// Decodes a send response payload.
pub fn payload_of_json(v: &JsonValue) -> (r: Option<crate::model::SendMessageResponsePayload>)
    ensures
        match r {
            Some(p) => payload_from_json(v@) == Some(p@) && match p@ {
                crate::model::SendMessageResponsePayloadV::Task(t) => t.wf(),
                crate::model::SendMessageResponsePayloadV::Message(m) => m.wf(),
            },
            None => payload_from_json(v@) is None,
        },
{
    let obj = match v {
        JsonValue::Object(o) => o,
        _ => {
            return None;
        },
    };
    let kind = match get_field(obj, "kind") {
        Some(JsonValue::Str(k)) => k,
        _ => {
            return None;
        },
    };
    let lit_task = "task".to_owned();
    let lit_message = "message".to_owned();
    if *kind == lit_task {
        match task_of_json(v) {
            Some(t) => Some(crate::model::SendMessageResponsePayload::Task(t)),
            None => None,
        }
    } else if *kind == lit_message {
        match message_of_json(v) {
            Some(m) => Some(crate::model::SendMessageResponsePayload::Message(m)),
            None => None,
        }
    } else {
        None
    }
}

/// The send response a JSON value denotes: a payload behind the `payload`
/// field, or none.
pub open spec fn send_response_from_json(v: JsonV) -> Option<crate::model::SendMessageResponseV> {
    match v {
        JsonV::Obj(fs) => match field_of(fs, "payload"@) {
            None => Some(crate::model::SendMessageResponseV { payload: None }),
            Some(JsonV::Null) => Some(crate::model::SendMessageResponseV { payload: None }),
            Some(pv) => match payload_from_json(pv) {
                Some(p) => Some(crate::model::SendMessageResponseV { payload: Some(p) }),
                None => None,
            },
        },
        _ => None,
    }
}

/// Encodes a send response. Decoding the result yields the response back.
pub fn send_response_to_json(resp: &crate::model::SendMessageResponse) -> (r: JsonValue)
    requires
        match resp@.payload {
            Some(crate::model::SendMessageResponsePayloadV::Task(t)) => t.wf(),
            Some(crate::model::SendMessageResponsePayloadV::Message(m)) => m.wf(),
            None => true,
        },
    ensures
        send_response_from_json(r@) == Some(resp@),
{
    let mut fields: Vec<(String, JsonValue)> = Vec::new();
    match &resp.payload {
        Some(p) => {
            fields.push(("payload".to_owned(), payload_to_json(p)));
        },
        None => {
            fields.push(("payload".to_owned(), JsonValue::Null));
        },
    }
    let r = JsonValue::Object(Object { fields });
    proof {
        let fs = r->Object_0@.fields;
        lemma_jv_fields_view(r->Object_0.fields@);
        reveal_strlit("payload");
        reveal_with_fuel(field_of, 3);
        assert(fs.len() == 1);
        assert(fs[0].0 == "payload"@);
        assert(field_of(fs, "payload"@) == Some(fs[0].1));
        if resp@.payload is Some {
            assert(!(fs[0].1 is Null));
        }
        assert(send_response_from_json(r@) == Some(resp@));
    }
    r
}

/// Decodes a send response.
pub fn send_response_of_json(v: &JsonValue) -> (r: Option<crate::model::SendMessageResponse>)
    ensures
        match r {
            Some(resp) => send_response_from_json(v@) == Some(resp@),
            None => send_response_from_json(v@) is None,
        },
{
    let obj = match v {
        JsonValue::Object(o) => o,
        _ => {
            return None;
        },
    };
    match get_field(obj, "payload") {
        None => Some(crate::model::SendMessageResponse { payload: None }),
        Some(JsonValue::Null) => Some(crate::model::SendMessageResponse { payload: None }),
        Some(pv) => match payload_of_json(pv) {
            Some(p) => Some(crate::model::SendMessageResponse { payload: Some(p) }),
            None => None,
        },
    }
}

/// The task read request a JSON value denotes.
pub open spec fn get_task_request_from_json(v: JsonV) -> Option<crate::model::GetTaskRequestV> {
    match v {
        JsonV::Obj(fs) => match req_str_field(fs, "id"@) {
            Some(id) => match (match field_of(fs, "historyLength"@) {
                None => Some(None),
                Some(JsonV::Null) => Some(None),
                Some(JsonV::Num(txt)) => match int_text_val(txt) {
                    Some(h) => if -0x80000000 <= h <= 0x7fffffff {
                        Some(Some(h))
                    } else {
                        None
                    },
                    None => None,
                },
                Some(_) => None,
            }) {
                Some(hl) => match opt_object_field(fs, "metadata"@) {
                    Some(md) => Some(
                        crate::model::GetTaskRequestV {
                            id: id,
                            history_length: hl,
                            metadata: md,
                        },
                    ),
                    None => None,
                },
                None => None,
            },
            None => None,
        },
        _ => None,
    }
}

/// Encodes a task read request. Decoding the result yields it back.
pub fn get_task_request_to_json(q: &crate::model::GetTaskRequest) -> (r: JsonValue)
    ensures
        get_task_request_from_json(r@) == Some(q@),
{
    let mut fields: Vec<(String, JsonValue)> = Vec::new();
    fields.push(("id".to_owned(), JsonValue::Str(q.id.clone())));
    match q.history_length {
        Some(h) => {
            fields.push(("historyLength".to_owned(), JsonValue::Number(int_text(h as i64))));
            proof {
                lemma_int_text_round_trip(h as int);
            }
        },
        None => {
            fields.push(("historyLength".to_owned(), JsonValue::Null));
        },
    }
    fields.push(("metadata".to_owned(), opt_object_json(&q.metadata)));
    let r = JsonValue::Object(Object { fields });
    proof {
        let fs = r->Object_0@.fields;
        lemma_jv_fields_view(r->Object_0.fields@);
        reveal_strlit("id");
        reveal_strlit("historyLength");
        reveal_strlit("metadata");
        reveal_with_fuel(field_of, 5);
        assert(fs.len() == 3);
        let d1 = fs.drop_first();
        let d2 = d1.drop_first();
        assert(fs[0].0 == "id"@);
        assert(d1[0].0 == "historyLength"@);
        assert(d2[0].0 == "metadata"@);
        assert(field_of(fs, "id"@) == Some(fs[0].1));
        assert(field_of(fs, "historyLength"@) == Some(d1[0].1));
        assert(field_of(fs, "metadata"@) == Some(d2[0].1));
        assert(get_task_request_from_json(r@) == Some(q@));
    }
    r
}

/// Decodes a task read request.
pub fn get_task_request_of_json(v: &JsonValue) -> (r: Option<crate::model::GetTaskRequest>)
    ensures
        match r {
            Some(q) => get_task_request_from_json(v@) == Some(q@),
            None => get_task_request_from_json(v@) is None,
        },
{
    let obj = match v {
        JsonValue::Object(o) => o,
        _ => {
            return None;
        },
    };
    let id = match get_field(obj, "id") {
        Some(JsonValue::Str(s)) => s.clone(),
        _ => {
            return None;
        },
    };
    let history_length: Option<i32> = match get_field(obj, "historyLength") {
        None => None,
        Some(JsonValue::Null) => None,
        Some(JsonValue::Number(txt)) => match parse_int_text(txt.as_str()) {
            Some(h) => {
                if h < -0x80000000i64 || h > 0x7fffffffi64 {
                    return None;
                }
                Some(h as i32)
            },
            None => {
                return None;
            },
        },
        Some(_) => {
            return None;
        },
    };
    let metadata = match get_field(obj, "metadata") {
        None => None,
        Some(JsonValue::Null) => None,
        Some(JsonValue::Object(o)) => Some(o.dup()),
        Some(_) => {
            return None;
        },
    };
    let q = crate::model::GetTaskRequest { id, history_length, metadata };
    proof {
        assert(get_task_request_from_json(v@) == Some(q@));
    }
    Some(q)
}

} // verus!
