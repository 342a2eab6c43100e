//! Small conversions between `String`, `str` and character vectors.

use vstd::prelude::*;

verus! {

/// Collects the characters of a string slice into a vector.
///
/// Wraps `str::chars` followed by `collect`; the claim is that the vector
/// holds exactly the characters of the slice, in order.
#[verifier::external_body]
pub(crate) fn chars_of(s: &str) -> (chars: Vec<char>)
    ensures
        chars@ == s@,
{
    s.chars().collect()
}

/// Builds a `String` from a vector of characters.
///
/// Wraps `Iterator::collect` into a `String`; the claim is that the string
/// holds exactly the given characters, in order.
#[verifier::external_body]
pub(crate) fn string_of(chars: &Vec<char>) -> (s: String)
    ensures
        s@ == chars@,
{
    chars.iter().collect()
}

} // verus!

verus! {

/// Builds a `String` from a string slice.
///
/// Wraps `str::to_string`; the claim is that the string holds the characters
/// of the slice.
#[verifier::external_body]
pub(crate) fn owned(s: &str) -> (r: String)
    ensures
        r@ == s@,
{
    s.to_string()
}

/// Decodes bytes as UTF-8.
///
/// Wraps `std::str::from_utf8`: the result is present exactly when the bytes
/// are valid UTF-8, and then holds the decoded characters.
#[verifier::external_body]
pub(crate) fn utf8_string(bytes: &[u8]) -> (r: Option<String>)
    ensures
        r is Some <==> vstd::utf8::valid_utf8(bytes@),
        r matches Some(s) ==> s@ == vstd::utf8::decode_utf8(bytes@),
{
    std::str::from_utf8(bytes).ok().map(|s| s.to_string())
}

/// Unicode control characters (general category Cc).
pub open spec fn is_control(c: char) -> bool {
    (c as u32) < 0x20 || (0x7f <= (c as u32) && (c as u32) <= 0x9f)
}

/// Lower-case hexadecimal digit for a value below 16.
pub open spec fn hex_digit(v: int) -> char {
    if v < 10 {
        ((v + 48) as u8) as char
    } else {
        ((v - 10 + 97) as u8) as char
    }
}

/// Lower-case hexadecimal digits of `n`, without leading zeros.
pub open spec fn hex_digits(n: nat) -> Seq<char>
    decreases n,
{
    if n < 16 {
        seq![hex_digit(n as int)]
    } else {
        hex_digits(n / 16).push(hex_digit((n % 16) as int))
    }
}

/// What `char::escape_default` yields for one character.
pub open spec fn escape_default(c: char) -> Seq<char> {
    if c == '\t' {
        seq!['\\', 't']
    } else if c == '\r' {
        seq!['\\', 'r']
    } else if c == '\n' {
        seq!['\\', 'n']
    } else if c == '\'' || c == '"' || c == '\\' {
        seq!['\\', c]
    } else if 0x20 <= (c as u32) && (c as u32) <= 0x7e {
        seq![c]
    } else {
        seq!['\\', 'u', '{'] + hex_digits(c as u32 as nat) + seq!['}']
    }
}

/// Every character of `s` escaped with `char::escape_default`, in order.
pub open spec fn escape_all(s: Seq<char>) -> Seq<char>
    decreases s.len(),
{
    if s.len() == 0 {
        seq![]
    } else {
        escape_all(s.drop_last()) + escape_default(s.last())
    }
}

fn hex_digit_exec(v: u32) -> (c: char)
    requires
        v < 16,
    ensures
        c == hex_digit(v as int),
{
    if v < 10 {
        ((v + 48) as u8) as char
    } else {
        ((v - 10 + 97) as u8) as char
    }
}

fn push_hex_digits(out: &mut Vec<char>, n: u32)
    ensures
        final(out)@ == old(out)@ + hex_digits(n as nat),
    decreases n,
{
    if n < 16 {
        out.push(hex_digit_exec(n));
    } else {
        push_hex_digits(out, n / 16);
        out.push(hex_digit_exec(n % 16));
        proof {
            assert(hex_digits(n as nat) == hex_digits((n / 16) as nat).push(hex_digit((n % 16) as int)));
        }
    }
}

/// Appends `char::escape_default` of `c` to `out`.
pub fn push_escaped(out: &mut Vec<char>, c: char)
    ensures
        final(out)@ == old(out)@ + escape_default(c),
{
    if c == '\t' {
        out.push('\\');
        out.push('t');
    } else if c == '\r' {
        out.push('\\');
        out.push('r');
    } else if c == '\n' {
        out.push('\\');
        out.push('n');
    } else if c == '\'' || c == '"' || c == '\\' {
        out.push('\\');
        out.push(c);
    } else if 0x20 <= (c as u32) && (c as u32) <= 0x7e {
        out.push(c);
    } else {
        out.push('\\');
        out.push('u');
        out.push('{');
        push_hex_digits(out, c as u32);
        out.push('}');
    }
}

/// Escapes every character with `char::escape_default`, so that no control
/// character or line break survives.
pub fn escape_chars(s: &Vec<char>) -> (r: Vec<char>)
    ensures
        r@ == escape_all(s@),
{
    let mut out: Vec<char> = Vec::new();
    let n = s.len();
    let mut i: usize = 0;
    while i < n
        invariant
            n == s@.len(),
            i <= n,
            out@ == escape_all(s@.take(i as int)),
        decreases n - i,
    {
        proof {
            assert(s@.take(i + 1).drop_last() =~= s@.take(i as int));
        }
        push_escaped(&mut out, s[i]);
        i = i + 1;
    }
    assert(s@.take(n as int) =~= s@);
    out
}

/// Whether any character of `s` is a control character.
pub fn has_control(s: &Vec<char>) -> (r: bool)
    ensures
        r == exists|k: int| 0 <= k < s@.len() && is_control(#[trigger] s@[k]),
{
    let n = s.len();
    let mut i: usize = 0;
    while i < n
        invariant
            n == s@.len(),
            i <= n,
            forall|k: int| 0 <= k < i ==> !is_control(#[trigger] s@[k]),
        decreases n - i,
    {
        let c = s[i] as u32;
        if c < 0x20 || (0x7f <= c && c <= 0x9f) {
            assert(is_control(s@[i as int]));
            return true;
        }
        i = i + 1;
    }
    false
}

/// Lexicographic order of character sequences by code point, the order in
/// which `str` compares its UTF-8 bytes.
pub open spec fn chars_less(a: Seq<char>, b: Seq<char>) -> bool
    decreases a.len(),
{
    if a.len() == 0 {
        b.len() > 0
    } else if b.len() == 0 {
        false
    } else if a[0] != b[0] {
        (a[0] as u32) < (b[0] as u32)
    } else {
        chars_less(a.skip(1), b.skip(1))
    }
}

/// No text is before itself.
pub proof fn lemma_chars_less_irreflexive(a: Seq<char>)
    ensures
        !chars_less(a, a),
    decreases a.len(),
{
    if a.len() > 0 {
        lemma_chars_less_irreflexive(a.skip(1));
    }
}

/// No two texts are each before the other.
pub proof fn lemma_chars_less_asymmetric(a: Seq<char>, b: Seq<char>)
    ensures
        !(chars_less(a, b) && chars_less(b, a)),
    decreases a.len(),
{
    if a.len() > 0 && b.len() > 0 && a[0] == b[0] {
        lemma_chars_less_asymmetric(a.skip(1), b.skip(1));
    }
}

/// Text order is transitive.
pub proof fn lemma_chars_less_transitive(a: Seq<char>, b: Seq<char>, c: Seq<char>)
    requires
        chars_less(a, b),
        chars_less(b, c),
    ensures
        chars_less(a, c),
    decreases a.len(),
{
    if a.len() > 0 && b.len() > 0 && c.len() > 0 {
        if a[0] == b[0] && b[0] == c[0] {
            lemma_chars_less_transitive(a.skip(1), b.skip(1), c.skip(1));
        } else {
            vstd::utf8::char_u32_cast(a[0], a[0] as u32);
            vstd::utf8::char_u32_cast(b[0], b[0] as u32);
            vstd::utf8::char_u32_cast(c[0], c[0] as u32);
        }
    }
}

/// Of two different texts, one is before the other.
pub proof fn lemma_chars_less_total(a: Seq<char>, b: Seq<char>)
    requires
        a != b,
    ensures
        chars_less(a, b) || chars_less(b, a),
    decreases a.len(),
{
    if a.len() > 0 && b.len() > 0 {
        if a[0] == b[0] {
            if a.skip(1) == b.skip(1) {
                assert(a =~= seq![a[0]] + a.skip(1));
                assert(b =~= seq![b[0]] + b.skip(1));
            }
            lemma_chars_less_total(a.skip(1), b.skip(1));
        } else {
            vstd::utf8::char_u32_cast(a[0], a[0] as u32);
            vstd::utf8::char_u32_cast(b[0], b[0] as u32);
        }
    } else if a.len() == 0 && b.len() == 0 {
        assert(a =~= b);
    }
}

/// Compares two character sequences in `str` order: -1, 0 or 1.
pub fn compare_chars(x: &Vec<char>, y: &Vec<char>) -> (r: i8)
    ensures
        r == 0 <==> x@ == y@,
        r < 0 <==> chars_less(x@, y@),
        r > 0 <==> chars_less(y@, x@),
{
    let ghost a = x@;
    let ghost b = y@;
    let n = x.len();
    let m = y.len();
    let mut i: usize = 0;
    assert(a.skip(0) =~= a);
    assert(b.skip(0) =~= b);
    while i < n && i < m
        invariant
            a == x@,
            b == y@,
            n == x@.len(),
            m == y@.len(),
            i <= n,
            i <= m,
            x@.take(i as int) == y@.take(i as int),
            chars_less(a, b) == chars_less(a.skip(i as int), b.skip(i as int)),
            chars_less(b, a) == chars_less(b.skip(i as int), a.skip(i as int)),
        decreases n - i,
    {
        let p = x[i];
        let q = y[i];
        proof {
            assert(a.skip(i as int)[0] == p);
            assert(b.skip(i as int)[0] == q);
            assert(a.skip(i as int).skip(1) =~= a.skip(i + 1));
            assert(b.skip(i as int).skip(1) =~= b.skip(i + 1));
        }
        if p != q {
            proof {
                if a == b {
                    assert(a[i as int] == b[i as int]);
                }
                assert(a.skip(i as int).len() > 0 && b.skip(i as int).len() > 0);
                assert(chars_less(a.skip(i as int), b.skip(i as int)) == ((p as u32) < (q as u32)));
                assert(chars_less(b.skip(i as int), a.skip(i as int)) == ((q as u32) < (p as u32)));
                vstd::utf8::char_u32_cast(p, p as u32);
                vstd::utf8::char_u32_cast(q, q as u32);
                assert(p as u32 != q as u32);
            }
            if (p as u32) < (q as u32) {
                return -1;
            } else {
                return 1;
            }
        }
        proof {
            assert(x@.take(i + 1) =~= x@.take(i as int).push(p));
            assert(y@.take(i + 1) =~= y@.take(i as int).push(q));
        }
        i = i + 1;
    }
    if n == m {
        assert(x@ =~= x@.take(i as int));
        assert(y@ =~= y@.take(i as int));
        proof {
            assert(a.skip(i as int).len() == 0);
            assert(b.skip(i as int).len() == 0);
        }
        0
    } else if n < m {
        proof {
            assert(a.skip(i as int).len() == 0);
            assert(b.skip(i as int).len() > 0);
            if a == b {
                assert(false);
            }
        }
        -1
    } else {
        proof {
            assert(a.skip(i as int).len() > 0);
            assert(b.skip(i as int).len() == 0);
        }
        1
    }
}

/// Compares two strings in `str` order: -1, 0 or 1.
pub fn compare_strings(a: &str, b: &str) -> (r: i8)
    ensures
        r == 0 <==> a@ == b@,
        r < 0 <==> chars_less(a@, b@),
        r > 0 <==> chars_less(b@, a@),
{
    compare_chars(&chars_of(a), &chars_of(b))
}

} // verus!

verus! {

/// The text that `String::from_utf8_lossy` makes of `bytes`: each maximal
/// invalid UTF-8 sequence replaced by U+FFFD.
pub uninterp spec fn utf8_lossy(bytes: Seq<u8>) -> Seq<char>;

/// Decodes bytes as UTF-8, replacing invalid sequences.
///
/// Wraps `String::from_utf8_lossy`: the result is the text named by
/// `utf8_lossy`, and for valid UTF-8 it is the decoded text itself.
#[verifier::external_body]
pub(crate) fn lossy_string(bytes: &[u8]) -> (s: String)
    ensures
        s@ == utf8_lossy(bytes@),
        vstd::utf8::valid_utf8(bytes@) ==> s@ == vstd::utf8::decode_utf8(bytes@),
{
    String::from_utf8_lossy(bytes).into_owned()
}

/// Characters with the Unicode property White_Space, the ones `str::trim`
/// removes.
pub open spec fn is_white_space(c: char) -> bool {
    let v = c as u32;
    (0x9 <= v && v <= 0xd) || v == 0x20 || v == 0x85 || v == 0xa0 || v == 0x1680
        || (0x2000 <= v && v <= 0x200a) || v == 0x2028 || v == 0x2029 || v == 0x202f
        || v == 0x205f || v == 0x3000
}

/// Number of leading white-space characters of `s`.
pub open spec fn leading_white_space(s: Seq<char>) -> nat
    decreases s.len(),
{
    if s.len() > 0 && is_white_space(s[0]) {
        1 + leading_white_space(s.skip(1))
    } else {
        0
    }
}

/// Number of trailing white-space characters of `s`.
pub open spec fn trailing_white_space(s: Seq<char>) -> nat
    decreases s.len(),
{
    if s.len() > 0 && is_white_space(s.last()) {
        1 + trailing_white_space(s.drop_last())
    } else {
        0
    }
}

/// `s` without its leading and trailing white space, as `str::trim` gives it.
pub open spec fn trim(s: Seq<char>) -> Seq<char> {
    let t = s.skip(leading_white_space(s) as int);
    t.take(t.len() - trailing_white_space(t))
}

proof fn lemma_leading_bound(s: Seq<char>)
    ensures
        leading_white_space(s) <= s.len(),
    decreases s.len(),
{
    if s.len() > 0 && is_white_space(s[0]) {
        lemma_leading_bound(s.skip(1));
    }
}

proof fn lemma_trailing_bound(s: Seq<char>)
    ensures
        trailing_white_space(s) <= s.len(),
    decreases s.len(),
{
    if s.len() > 0 && is_white_space(s.last()) {
        lemma_trailing_bound(s.drop_last());
    }
}

fn white_space(c: char) -> (r: bool)
    ensures
        r == is_white_space(c),
{
    let v = c as u32;
    (0x9 <= v && v <= 0xd) || v == 0x20 || v == 0x85 || v == 0xa0 || v == 0x1680
        || (0x2000 <= v && v <= 0x200a) || v == 0x2028 || v == 0x2029 || v == 0x202f
        || v == 0x205f || v == 0x3000
}

/// The characters of `s` without leading and trailing white space.
pub fn trim_chars(s: &Vec<char>) -> (r: Vec<char>)
    ensures
        r@ == trim(s@),
{
    let n = s.len();
    let mut start: usize = 0;
    assert(s@.skip(0) =~= s@);
    while start < n && white_space(s[start])
        invariant
            n == s@.len(),
            start <= n,
            leading_white_space(s@) == start + leading_white_space(s@.skip(start as int)),
        decreases n - start,
    {
        assert(s@.skip(start as int).skip(1) =~= s@.skip(start + 1));
        start = start + 1;
    }
    proof {
        lemma_leading_bound(s@);
        assert(leading_white_space(s@.skip(start as int)) == 0);
    }
    let ghost t = s@.skip(start as int);
    let mut end: usize = n;
    assert(t.take(n - start) =~= t);
    while end > start && white_space(s[end - 1])
        invariant
            n == s@.len(),
            start <= end <= n,
            t == s@.skip(start as int),
            trailing_white_space(t) == (n - end) + trailing_white_space(
                t.take(end - start),
            ),
        decreases end - start,
    {
        assert(t.take(end - start).drop_last() =~= t.take(end - 1 - start));
        assert(t.take(end - start).last() == s@[end - 1]);
        end = end - 1;
    }
    proof {
        assert(t.take(end - start) =~= t.take(end - start));
        if end > start {
            assert(t.take(end - start).last() == s@[end - 1]);
        }
        assert(trailing_white_space(t.take(end - start)) == 0);
        assert(t.take(n - start) =~= t);
    }
    let mut out: Vec<char> = Vec::new();
    let mut i: usize = start;
    while i < end
        invariant
            start <= i <= end <= n,
            n == s@.len(),
            out@ == s@.subrange(start as int, i as int),
        decreases end - i,
    {
        out.push(s[i]);
        i = i + 1;
    }
    assert(out@ =~= t.take(t.len() - trailing_white_space(t)));
    out
}

} // verus!

verus! {

/// `t` occurs in `s` at position `i`.
pub open spec fn occurs_at(s: Seq<char>, t: Seq<char>, i: int) -> bool {
    0 <= i && i + t.len() <= s.len() && s.subrange(i, i + t.len()) == t
}

/// `t` occurs somewhere in `s`.
pub open spec fn has_infix_spec(s: Seq<char>, t: Seq<char>) -> bool {
    exists|i: int| #[trigger] occurs_at(s, t, i)
}

fn occurs_at_exec(a: &Vec<char>, b: &Vec<char>, i: usize) -> (r: bool)
    requires
        i + b@.len() <= a@.len(),
    ensures
        r == occurs_at(a@, b@, i as int),
{
    let n = a.len();
    let mut j: usize = 0;
    while j < b.len()
        invariant
            n == a@.len(),
            i + b@.len() <= a@.len(),
            j <= b@.len(),
            forall|k: int| 0 <= k < j ==> a@[i + k] == b@[k],
        decreases b@.len() - j,
    {
        if a[i + j] != b[j] {
            assert(a@.subrange(i as int, i + b@.len())[j as int] != b@[j as int]);
            return false;
        }
        j = j + 1;
    }
    assert(a@.subrange(i as int, i + b@.len()) =~= b@);
    true
}

/// Whether `t` occurs in `s`.
pub fn has_infix(s: &str, t: &str) -> (r: bool)
    ensures
        r == has_infix_spec(s@, t@),
{
    let a = chars_of(s);
    let b = chars_of(t);
    if b.len() == 0 {
        assert(a@.subrange(0, 0) =~= b@);
        assert(occurs_at(s@, t@, 0));
        return true;
    }
    if b.len() > a.len() {
        proof {
            if has_infix_spec(s@, t@) {
                let k = choose|k: int| #[trigger] occurs_at(s@, t@, k);
            }
        }
        return false;
    }
    let bound = a.len() - b.len() + 1;
    let mut i: usize = 0;
    while i < bound
        invariant
            a@ == s@,
            b@ == t@,
            1 <= b@.len() <= a@.len(),
            bound == a@.len() - b@.len() + 1,
            i <= bound,
            forall|k: int| 0 <= k < i ==> !occurs_at(a@, b@, k),
        decreases bound - i,
    {
        if occurs_at_exec(&a, &b, i) {
            return true;
        }
        i = i + 1;
    }
    proof {
        if has_infix_spec(s@, t@) {
            let k = choose|k: int| #[trigger] occurs_at(s@, t@, k);
            assert(!occurs_at(a@, b@, k));
        }
    }
    false
}


/// Whether every character of `s` is white space (so that trimming leaves
/// nothing).
pub fn is_blank(s: &str) -> (r: bool)
    ensures
        r == (forall|i: int| 0 <= i < s@.len() ==> is_white_space(#[trigger] s@[i])),
{
    let c = chars_of(s);
    let mut i: usize = 0;
    while i < c.len()
        invariant
            c@ == s@,
            i <= c@.len(),
            forall|k: int| 0 <= k < i ==> is_white_space(#[trigger] s@[k]),
        decreases c@.len() - i,
    {
        if !white_space(c[i]) {
            return false;
        }
        i = i + 1;
    }
    true
}

} // verus!
