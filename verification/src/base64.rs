//! RFC 4648 standard base64 with padding, used for non-UTF-8 path bytes.

use vstd::prelude::*;
use crate::text::{chars_of, string_of};

verus! {

/// The character of the standard alphabet for a 6-bit value.
pub open spec fn alphabet_char(v: int) -> char {
    if v < 26 {
        ((v + 65) as u8) as char
    } else if v < 52 {
        ((v - 26 + 97) as u8) as char
    } else if v < 62 {
        ((v - 52 + 48) as u8) as char
    } else if v == 62 {
        '+'
    } else {
        '/'
    }
}

/// The 6-bit value of an alphabet character; `None` for padding and for
/// every character outside the alphabet.
pub open spec fn alphabet_value(c: char) -> Option<u8> {
    if 'A' <= c <= 'Z' {
        Some((c as int - 65) as u8)
    } else if 'a' <= c <= 'z' {
        Some((c as int - 97 + 26) as u8)
    } else if '0' <= c <= '9' {
        Some((c as int - 48 + 52) as u8)
    } else if c == '+' {
        Some(62u8)
    } else if c == '/' {
        Some(63u8)
    } else {
        None
    }
}

/// The four output characters for one group of one to three input bytes.
pub open spec fn encode_group(b: Seq<u8>) -> Seq<char>
    recommends
        1 <= b.len() <= 3,
{
    let b0 = b[0] as int;
    let b1 = if b.len() > 1 { b[1] as int } else { 0 };
    let b2 = if b.len() > 2 { b[2] as int } else { 0 };
    seq![
        alphabet_char(b0 / 4),
        alphabet_char((b0 % 4) * 16 + b1 / 16),
        if b.len() > 1 { alphabet_char((b1 % 16) * 4 + b2 / 64) } else { '=' },
        if b.len() > 2 { alphabet_char(b2 % 64) } else { '=' },
    ]
}

/// Standard padded base64 of a byte sequence.
pub open spec fn spec_base64_encode(b: Seq<u8>) -> Seq<char>
    decreases b.len(),
{
    if b.len() == 0 {
        seq![]
    } else if b.len() <= 3 {
        encode_group(b)
    } else {
        encode_group(b.take(3)) + spec_base64_encode(b.skip(3))
    }
}

/// The 6-bit values of the alphabet characters of `s`, in order; padding and
/// foreign characters are skipped.
pub open spec fn alphabet_values(s: Seq<char>) -> Seq<u8>
    decreases s.len(),
{
    if s.len() == 0 {
        seq![]
    } else {
        match alphabet_value(s[0]) {
            Some(v) => seq![v] + alphabet_values(s.skip(1)),
            None => alphabet_values(s.skip(1)),
        }
    }
}

/// The 24-bit group value of up to four 6-bit values (missing ones are 0).
pub open spec fn group_value(v: Seq<u8>) -> int {
    let v0 = v[0] as int;
    let v1 = if v.len() > 1 { v[1] as int } else { 0 };
    let v2 = if v.len() > 2 { v[2] as int } else { 0 };
    let v3 = if v.len() > 3 { v[3] as int } else { 0 };
    v0 * 262144 + v1 * 4096 + v2 * 64 + v3
}

/// The bytes decoded from one group of one to four 6-bit values.
pub open spec fn decode_group(v: Seq<u8>) -> Seq<u8>
    recommends
        1 <= v.len() <= 4,
{
    let c = group_value(v);
    let first = seq![((c / 65536) % 256) as u8];
    let second = if v.len() > 2 { seq![((c / 256) % 256) as u8] } else { seq![] };
    let third = if v.len() > 3 { seq![(c % 256) as u8] } else { seq![] };
    first + second + third
}

/// Bytes decoded from a sequence of 6-bit values, four at a time.
pub open spec fn decode_values(v: Seq<u8>) -> Seq<u8>
    decreases v.len(),
{
    if v.len() == 0 {
        seq![]
    } else if v.len() <= 4 {
        decode_group(v)
    } else {
        decode_group(v.take(4)) + decode_values(v.skip(4))
    }
}

/// Lenient decoding: foreign characters and padding are skipped, and the
/// remaining values are decoded four at a time.
pub open spec fn spec_base64_decode(s: Seq<char>) -> Seq<u8> {
    decode_values(alphabet_values(s))
}

fn alphabet_char_exec(v: u8) -> (c: char)
    requires
        v < 64,
    ensures
        c == alphabet_char(v as int),
{
    if v < 26 {
        (v + 65) as char
    } else if v < 52 {
        (v - 26 + 97) as char
    } else if v < 62 {
        (v - 52 + 48) as char
    } else if v == 62 {
        '+'
    } else {
        '/'
    }
}

fn alphabet_value_exec(c: char) -> (r: Option<u8>)
    ensures
        r == alphabet_value(c),
{
    if 'A' <= c && c <= 'Z' {
        Some((c as u32 - 65) as u8)
    } else if 'a' <= c && c <= 'z' {
        Some((c as u32 - 97 + 26) as u8)
    } else if '0' <= c && c <= '9' {
        Some((c as u32 - 48 + 52) as u8)
    } else if c == '+' {
        Some(62)
    } else if c == '/' {
        Some(63)
    } else {
        None
    }
}

/// Encodes bytes as RFC 4648 standard base64 with `=` padding.
pub fn base64_encode(bytes: &[u8]) -> (encoded: String)
    ensures
        encoded@ == spec_base64_encode(bytes@),
{
    let mut out: Vec<char> = Vec::new();
    let len = bytes.len();
    let mut i: usize = 0;
    assert(bytes@.skip(0) =~= bytes@);
    while i < len
        invariant
            len == bytes@.len(),
            i <= len,
            spec_base64_encode(bytes@) =~= out@ + spec_base64_encode(bytes@.skip(i as int)),
        decreases len - i,
    {
        let rest = len - i;
        let b0 = bytes[i];
        let b1: u8 = if rest > 1 { bytes[i + 1] } else { 0 };
        let b2: u8 = if rest > 2 { bytes[i + 2] } else { 0 };
        let ghost tail = bytes@.skip(i as int);
        let ghost group = if rest <= 3 { tail } else { tail.take(3) };
        out.push(alphabet_char_exec(b0 / 4));
        out.push(alphabet_char_exec((b0 % 4) * 16 + b1 / 16));
        if rest > 1 {
            out.push(alphabet_char_exec((b1 % 16) * 4 + b2 / 64));
        } else {
            out.push('=');
        }
        if rest > 2 {
            out.push(alphabet_char_exec(b2 % 64));
        } else {
            out.push('=');
        }
        proof {
            assert(group.len() == if rest <= 3 { rest as int } else { 3 });
            assert(group[0] == b0);
            assert(rest > 1 ==> group[1] == b1);
            assert(rest > 2 ==> group[2] == b2);
        }
        if rest <= 3 {
            proof {
                assert(bytes@.skip(len as int) =~= Seq::<u8>::empty());
            }
            i = len;
        } else {
            proof {
                assert(tail.skip(3) =~= bytes@.skip(i + 3));
            }
            i = i + 3;
        }
    }
    string_of(&out)
}

/// Decodes standard base64 leniently: characters outside the alphabet and
/// padding are skipped, and the remaining values are decoded four at a time.
pub fn base64_decode(encoded: &str) -> (decoded: Vec<u8>)
    ensures
        decoded@ == spec_base64_decode(encoded@),
{
    let chars = chars_of(encoded);
    let mut values: Vec<u8> = Vec::new();
    let n = chars.len();
    let mut i: usize = 0;
    assert(chars@.skip(0) =~= chars@);
    while i < n
        invariant
            n == chars@.len(),
            i <= n,
            chars@ == encoded@,
            alphabet_values(encoded@) =~= values@ + alphabet_values(chars@.skip(i as int)),
            forall|k: int| 0 <= k < values@.len() ==> values@[k] < 64,
        decreases n - i,
    {
        proof {
            assert(chars@.skip(i as int).skip(1) =~= chars@.skip(i + 1));
            assert(chars@.skip(i as int)[0] == chars@[i as int]);
        }
        match alphabet_value_exec(chars[i]) {
            Some(v) => values.push(v),
            None => {},
        }
        i = i + 1;
    }
    assert(chars@.skip(n as int) =~= Seq::<char>::empty());
    let mut out: Vec<u8> = Vec::new();
    let m = values.len();
    let mut j: usize = 0;
    assert(values@.skip(0) =~= values@);
    while j < m
        invariant
            m == values@.len(),
            j <= m,
            spec_base64_decode(encoded@) =~= out@ + decode_values(values@.skip(j as int)),
            alphabet_values(encoded@) == values@,
            forall|k: int| 0 <= k < values@.len() ==> values@[k] < 64,
        decreases m - j,
    {
        let rest = m - j;
        let v0 = values[j] as u32;
        let v1: u32 = if rest > 1 { values[j + 1] as u32 } else { 0 };
        let v2: u32 = if rest > 2 { values[j + 2] as u32 } else { 0 };
        let v3: u32 = if rest > 3 { values[j + 3] as u32 } else { 0 };
        let combined: u32 = v0 * 262144 + v1 * 4096 + v2 * 64 + v3;
        let ghost tail = values@.skip(j as int);
        let ghost group = if rest <= 4 { tail } else { tail.take(4) };
        proof {
            assert(group.len() == if rest <= 4 { rest as int } else { 4 });
            assert(group[0] as u32 == v0);
            assert(rest > 1 ==> group[1] as u32 == v1);
            assert(rest > 2 ==> group[2] as u32 == v2);
            assert(rest > 3 ==> group[3] as u32 == v3);
            assert(group_value(group) == combined as int);
        }
        out.push(((combined / 65536) % 256) as u8);
        if rest > 2 {
            out.push(((combined / 256) % 256) as u8);
        }
        if rest > 3 {
            out.push((combined % 256) as u8);
        }
        if rest <= 4 {
            proof {
                assert(values@.skip(m as int) =~= Seq::<u8>::empty());
            }
            j = m;
        } else {
            proof {
                assert(tail.skip(4) =~= values@.skip(j + 4));
            }
            j = j + 4;
        }
    }
    out
}

} // verus!

verus! {

/// The 6-bit values that `encode_group` writes for a group (padding excluded).
pub open spec fn group_values(b: Seq<u8>) -> Seq<u8> {
    let b0 = b[0] as int;
    let b1 = if b.len() > 1 { b[1] as int } else { 0 };
    let b2 = if b.len() > 2 { b[2] as int } else { 0 };
    let first = seq![(b0 / 4) as u8, ((b0 % 4) * 16 + b1 / 16) as u8];
    let second = if b.len() > 1 { seq![((b1 % 16) * 4 + b2 / 64) as u8] } else { seq![] };
    let third = if b.len() > 2 { seq![(b2 % 64) as u8] } else { seq![] };
    first + second + third
}

proof fn lemma_alphabet_roundtrip(v: int)
    requires
        0 <= v < 64,
    ensures
        alphabet_value(alphabet_char(v)) == Some(v as u8),
{
}

proof fn lemma_values_concat(a: Seq<char>, b: Seq<char>)
    ensures
        alphabet_values(a + b) == alphabet_values(a) + alphabet_values(b),
    decreases a.len(),
{
    if a.len() == 0 {
        assert(a + b =~= b);
    } else {
        assert((a + b).skip(1) =~= a.skip(1) + b);
        assert((a + b)[0] == a[0]);
        lemma_values_concat(a.skip(1), b);
        match alphabet_value(a[0]) {
            Some(v) => {
                assert(seq![v] + alphabet_values(a.skip(1)) + alphabet_values(b)
                    =~= seq![v] + (alphabet_values(a.skip(1)) + alphabet_values(b)));
            },
            None => {},
        }
    }
}

proof fn lemma_group_values(b: Seq<u8>)
    requires
        1 <= b.len() <= 3,
    ensures
        alphabet_values(encode_group(b)) == group_values(b),
        decode_group(group_values(b)) == b,
{
    let e = encode_group(b);
    let b0 = b[0] as int;
    let b1 = if b.len() > 1 { b[1] as int } else { 0 };
    let b2 = if b.len() > 2 { b[2] as int } else { 0 };
    let v0 = b0 / 4;
    let v1 = (b0 % 4) * 16 + b1 / 16;
    let v2 = (b1 % 16) * 4 + b2 / 64;
    let v3 = b2 % 64;
    lemma_alphabet_roundtrip(v0);
    lemma_alphabet_roundtrip(v1);
    lemma_alphabet_roundtrip(v2);
    lemma_alphabet_roundtrip(v3);
    reveal_with_fuel(alphabet_values, 5);
    assert(e.skip(1) =~= seq![e[1], e[2], e[3]]);
    assert(e.skip(1).skip(1) =~= seq![e[2], e[3]]);
    assert(e.skip(1).skip(1).skip(1) =~= seq![e[3]]);
    assert(e.skip(1).skip(1).skip(1).skip(1) =~= Seq::<char>::empty());
    assert(alphabet_values(encode_group(b)) =~= group_values(b));
    let g = group_values(b);
    assert(0 <= b0 < 256 && 0 <= b1 < 256 && 0 <= b2 < 256);
    assert(v0 * 262144 + v1 * 4096 + v2 * 64 + v3 == b0 * 65536 + b1 * 256 + b2) by (nonlinear_arith)
        requires
            0 <= b0 < 256,
            0 <= b1 < 256,
            0 <= b2 < 256,
            v0 == b0 / 4,
            v1 == (b0 % 4) * 16 + b1 / 16,
            v2 == (b1 % 16) * 4 + b2 / 64,
            v3 == b2 % 64,
    ;
    let c = b0 * 65536 + b1 * 256 + b2;
    assert((c / 65536) % 256 == b0 && (c / 256) % 256 == b1 && c % 256 == b2) by (nonlinear_arith)
        requires
            0 <= b0 < 256,
            0 <= b1 < 256,
            0 <= b2 < 256,
            c == b0 * 65536 + b1 * 256 + b2,
    ;
    if b.len() == 1 {
        assert(group_value(g) == v0 * 262144 + v1 * 4096);
        assert(v2 == 0 && v3 == 0);
    } else if b.len() == 2 {
        assert(group_value(g) == v0 * 262144 + v1 * 4096 + v2 * 64);
        assert(v3 == 0);
    }
    assert(group_value(g) == c);
    assert(decode_group(g) =~= b);
}

/// All 6-bit values produced for `b`, group by group.
pub open spec fn all_group_values(b: Seq<u8>) -> Seq<u8>
    decreases b.len(),
{
    if b.len() == 0 {
        seq![]
    } else if b.len() <= 3 {
        group_values(b)
    } else {
        group_values(b.take(3)) + all_group_values(b.skip(3))
    }
}

proof fn lemma_encode_values(b: Seq<u8>)
    ensures
        alphabet_values(spec_base64_encode(b)) == all_group_values(b),
        decode_values(all_group_values(b)) == b,
    decreases b.len(),
{
    if b.len() == 0 {
    } else if b.len() <= 3 {
        lemma_group_values(b);
        let g = group_values(b);
        assert(decode_values(g) == decode_group(g));
    } else {
        let head = b.take(3);
        let tail = b.skip(3);
        lemma_group_values(head);
        lemma_encode_values(tail);
        lemma_values_concat(encode_group(head), spec_base64_encode(tail));
        let g = group_values(head);
        let rest = all_group_values(tail);
        assert(g.len() == 4);
        assert((g + rest).take(4) =~= g);
        assert((g + rest).skip(4) =~= rest);
        if rest.len() == 0 {
            assert(tail.len() > 0);
            assert(false);
        }
        assert(decode_values(g + rest) == decode_group(g) + decode_values(rest));
        assert(head + tail =~= b);
    }
}

/// Decoding the padded encoding of any byte sequence gives the bytes back.
pub proof fn lemma_base64_roundtrip(b: Seq<u8>)
    ensures
        spec_base64_decode(spec_base64_encode(b)) == b,
{
    lemma_encode_values(b);
}

} // verus!
