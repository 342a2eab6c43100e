//! Canonical compact JSON text for the project's identity documents.
//!
//! The text matches what a compact serializer writes for the same structure:
//! no whitespace, fields in declaration order, strings with the short escapes
//! `\" \\ \b \t \n \f \r` and `\u00xx` for the remaining control characters.

use vstd::prelude::*;
use crate::text::{chars_of, hex_digit};

verus! {

/// The escaped form of one character inside a JSON string.
pub open spec fn json_escape(c: char) -> Seq<char> {
    if c == '"' {
        seq!['\\', '"']
    } else if c == '\\' {
        seq!['\\', '\\']
    } else if c == '\u{8}' {
        seq!['\\', 'b']
    } else if c == '\t' {
        seq!['\\', 't']
    } else if c == '\n' {
        seq!['\\', 'n']
    } else if c == '\u{c}' {
        seq!['\\', 'f']
    } else if c == '\r' {
        seq!['\\', 'r']
    } else if (c as u32) < 0x20 {
        seq!['\\', 'u', '0', '0', hex_digit((c as u32 / 16) as int), hex_digit((c as u32 % 16) as int)]
    } else {
        seq![c]
    }
}

/// The escaped characters of a string, without the quotes.
pub open spec fn json_escape_all(s: Seq<char>) -> Seq<char>
    decreases s.len(),
{
    if s.len() == 0 {
        seq![]
    } else {
        json_escape_all(s.drop_last()) + json_escape(s.last())
    }
}

/// A JSON string literal.
pub open spec fn json_string(s: Seq<char>) -> Seq<char> {
    seq!['"'] + json_escape_all(s) + seq!['"']
}

pub open spec fn json_bool(b: bool) -> Seq<char> {
    if b { "true"@ } else { "false"@ }
}

/// Decimal digits of `n`, without leading zeros.
pub open spec fn decimal_digits(n: nat) -> Seq<char>
    decreases n,
{
    if n < 10 {
        seq![((n + 48) as u8) as char]
    } else {
        decimal_digits(n / 10).push(((n % 10 + 48) as u8) as char)
    }
}

/// A JSON object member `"key":value`.
pub open spec fn json_member(key: Seq<char>, value: Seq<char>) -> Seq<char> {
    json_string(key) + seq![':'] + value
}

/// Appends the characters of a literal.
pub fn push_str(out: &mut Vec<char>, s: &str)
    ensures
        final(out)@ == old(out)@ + s@,
{
    let chars = chars_of(s);
    let n = chars.len();
    let mut i: usize = 0;
    while i < n
        invariant
            n == chars@.len(),
            chars@ == s@,
            i <= n,
            out@ == old(out)@ + s@.take(i as int),
        decreases n - i,
    {
        proof {
            assert(s@.take(i + 1) =~= s@.take(i as int).push(s@[i as int]));
        }
        out.push(chars[i]);
        i = i + 1;
    }
    assert(s@.take(n as int) =~= s@);
}

fn push_json_escape(out: &mut Vec<char>, c: char)
    ensures
        final(out)@ == old(out)@ + json_escape(c),
{
    let v = c as u32;
    if c == '"' {
        out.push('\\');
        out.push('"');
    } else if c == '\\' {
        out.push('\\');
        out.push('\\');
    } else if v == 8 {
        out.push('\\');
        out.push('b');
    } else if c == '\t' {
        out.push('\\');
        out.push('t');
    } else if c == '\n' {
        out.push('\\');
        out.push('n');
    } else if v == 12 {
        out.push('\\');
        out.push('f');
    } else if c == '\r' {
        out.push('\\');
        out.push('r');
    } else if v < 0x20 {
        out.push('\\');
        out.push('u');
        out.push('0');
        out.push('0');
        let hi = v / 16;
        let lo = v % 16;
        out.push(if hi < 10 { ((hi + 48) as u8) as char } else { ((hi - 10 + 97) as u8) as char });
        out.push(if lo < 10 { ((lo + 48) as u8) as char } else { ((lo - 10 + 97) as u8) as char });
    } else {
        out.push(c);
    }
    proof {
        if v == 8 {
            vstd::utf8::char_u32_cast(c, v);
            assert(c == '\u{8}');
        }
        if v == 12 {
            vstd::utf8::char_u32_cast(c, v);
            assert(c == '\u{c}');
        }
    }
}

/// Appends a JSON string literal.
pub fn push_json_string(out: &mut Vec<char>, s: &str)
    ensures
        final(out)@ == old(out)@ + json_string(s@),
{
    let chars = chars_of(s);
    out.push('"');
    let ghost start = out@;
    let n = chars.len();
    let mut i: usize = 0;
    while i < n
        invariant
            n == chars@.len(),
            chars@ == s@,
            i <= n,
            out@ == start + json_escape_all(s@.take(i as int)),
        decreases n - i,
    {
        proof {
            assert(s@.take(i + 1).drop_last() =~= s@.take(i as int));
            assert(s@.take(i + 1).last() == chars@[i as int]);
        }
        push_json_escape(out, chars[i]);
        i = i + 1;
    }
    assert(s@.take(n as int) =~= s@);
    out.push('"');
}

pub fn push_json_bool(out: &mut Vec<char>, b: bool)
    ensures
        final(out)@ == old(out)@ + json_bool(b),
{
    if b {
        push_str(out, "true");
    } else {
        push_str(out, "false");
    }
}

/// Appends the decimal digits of `n`.
pub fn push_decimal(out: &mut Vec<char>, n: u64)
    ensures
        final(out)@ == old(out)@ + decimal_digits(n as nat),
    decreases n,
{
    if n < 10 {
        out.push(((n + 48) as u8) as char);
    } else {
        push_decimal(out, n / 10);
        out.push(((n % 10 + 48) as u8) as char);
        proof {
            assert(decimal_digits(n as nat) == decimal_digits((n / 10) as nat).push(((n % 10 + 48) as u8) as char));
        }
    }
}

/// Appends `"key":` for a member whose value follows.
pub fn push_key(out: &mut Vec<char>, key: &str)
    ensures
        final(out)@ == old(out)@ + json_string(key@) + seq![':'],
{
    push_json_string(out, key);
    out.push(':');
}

/// Elements separated by commas.
pub open spec fn json_joined(elems: Seq<Seq<char>>) -> Seq<char>
    decreases elems.len(),
{
    if elems.len() == 0 {
        seq![]
    } else if elems.len() == 1 {
        elems[0]
    } else {
        json_joined(elems.drop_last()) + seq![','] + elems.last()
    }
}

/// A JSON array of already-encoded elements.
pub open spec fn json_array(elems: Seq<Seq<char>>) -> Seq<char> {
    seq!['['] + json_joined(elems) + seq![']']
}

/// Appending one more element to a joined list.
pub proof fn lemma_joined_push(elems: Seq<Seq<char>>, e: Seq<char>)
    ensures
        json_joined(elems.push(e)) == if elems.len() == 0 { e } else { json_joined(elems) + seq![','] + e },
{
    assert(elems.push(e).drop_last() =~= elems);
}

/// Appends a JSON array of strings.
pub fn push_json_string_array(out: &mut Vec<char>, items: &Vec<String>)
    ensures
        final(out)@ == old(out)@ + json_array(items@.map_values(|s: String| json_string(s@))),
{
    let ghost elems = items@.map_values(|s: String| json_string(s@));
    out.push('[');
    let ghost start = old(out)@;
    let mut i: usize = 0;
    while i < items.len()
        invariant
            i <= items@.len(),
            elems == items@.map_values(|s: String| json_string(s@)),
            out@ == start + seq!['['] + json_joined(elems.take(i as int)),
        decreases items@.len() - i,
    {
        proof {
            lemma_joined_push(elems.take(i as int), elems[i as int]);
            assert(elems.take(i + 1) =~= elems.take(i as int).push(elems[i as int]));
        }
        if i > 0 {
            out.push(',');
        }
        push_json_string(out, items[i].as_str());
        i = i + 1;
    }
    assert(elems.take(items@.len() as int) =~= elems);
    out.push(']');
}

/// A JSON object of already-encoded members.
pub open spec fn json_object(members: Seq<Seq<char>>) -> Seq<char> {
    seq!['{'] + json_joined(members) + seq!['}']
}

/// Appends `,` unless this is the first member, then `"key":`, and returns
/// the text of a member whose value is still to come.
pub fn push_member_key(out: &mut Vec<char>, key: &str, first: bool, Ghost(start): Ghost<Seq<char>>, Ghost(done): Ghost<Seq<Seq<char>>>)
    requires
        old(out)@ == start + seq!['{'] + json_joined(done),
        first == (done.len() == 0),
    ensures
        final(out)@ == start + seq!['{'] + json_joined(done) + (if done.len() == 0 { seq![] } else { seq![','] }) + json_string(key@) + seq![':'],
{
    if !first {
        out.push(',');
    }
    push_key(out, key);
    assert(final(out)@ =~= start + seq!['{'] + json_joined(done) + (if done.len() == 0 { Seq::<char>::empty() } else { seq![','] }) + json_string(key@) + seq![':']);
}

/// Closing the member that `push_member_key` opened.
pub proof fn lemma_member_pushed(start: Seq<char>, done: Seq<Seq<char>>, key: Seq<char>, value: Seq<char>, out: Seq<char>)
    requires
        out == start + seq!['{'] + json_joined(done) + (if done.len() == 0 { seq![] } else { seq![','] }) + json_string(key) + seq![':'] + value,
    ensures
        out == start + seq!['{'] + json_joined(done.push(json_member(key, value))),
{
    lemma_joined_push(done, json_member(key, value));
    assert(out =~= start + seq!['{'] + json_joined(done.push(json_member(key, value))));
}

} // verus!
