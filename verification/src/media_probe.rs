//! Turning a media prober's decoded response into stream evidence: the
//! response must name a format and at least one stream, stream indices must
//! be distinct, no observed dimension may be zero, and every number must
//! parse.

use vstd::prelude::*;
use crate::domain::{MediaDescriptor, MediaStream};
use crate::json::push_str;
use crate::text::{chars_of, is_blank, is_white_space, owned, string_of};

verus! {

/// One stream of a prober response, as decoded.
#[derive(Debug, Clone)]
pub struct ProbeStream {
    pub index: u32,
    pub codec_type: Option<String>,
    pub codec_name: Option<String>,
    pub width: Option<u32>,
    pub height: Option<u32>,
    pub sample_rate: Option<String>,
    pub channels: Option<u32>,
}

/// The format object of a prober response, as decoded.
#[derive(Debug, Clone)]
pub struct ProbeFormat {
    pub format_name: Option<String>,
    pub duration: Option<String>,
    pub bit_rate: Option<String>,
}

/// A decoded prober response.
#[derive(Debug, Clone)]
pub struct ProbeOutput {
    pub streams: Vec<ProbeStream>,
    pub format: Option<ProbeFormat>,
}

/// The format's duration, read by the caller: absent (or `N/A`), a finite
/// non-negative number of seconds as its IEEE-754 bits, or the message of
/// why it is not one.
#[derive(Debug, Clone)]
pub enum DurationField {
    Absent,
    Seconds(u64),
    Invalid(String),
}

/// Why a decimal number did not parse, as the standard library names it.
#[derive(Debug, Clone, Copy, PartialEq, Eq, Structural)]
pub enum IntError {
    Empty,
    InvalidDigit,
    PosOverflow,
}

pub open spec fn int_error_text(e: IntError) -> Seq<char> {
    match e {
        IntError::Empty => "cannot parse integer from empty string"@,
        IntError::InvalidDigit => "invalid digit found in string"@,
        IntError::PosOverflow => "number too large to fit in target type"@,
    }
}

pub open spec fn is_digit(c: char) -> bool {
    '0' <= c && c <= '9'
}

pub open spec fn digit_value(c: char) -> int {
    (c as int) - ('0' as int)
}

/// Reads the digits of `d` from position `i` on, after `acc`, left to
/// right: the first non-digit or the first step past `max` fails.
pub open spec fn accumulate(d: Seq<char>, i: int, acc: int, max: int) -> Result<int, IntError>
    decreases d.len() - i,
{
    if i < 0 || i >= d.len() {
        Ok(acc)
    } else if !is_digit(d[i]) {
        Err(IntError::InvalidDigit)
    } else if acc * 10 + digit_value(d[i]) > max {
        Err(IntError::PosOverflow)
    } else {
        accumulate(d, i + 1, acc * 10 + digit_value(d[i]), max)
    }
}

/// An unsigned decimal number of at most `max`, as `str::parse` reads it:
/// an optional `+`, then only digits.
pub open spec fn spec_parse_unsigned(s: Seq<char>, max: int) -> Result<int, IntError> {
    if s.len() == 0 {
        Err(IntError::Empty)
    } else if s.len() == 1 && (s[0] == '+' || s[0] == '-') {
        Err(IntError::InvalidDigit)
    } else if s[0] == '+' {
        accumulate(s, 1, 0, max)
    } else {
        accumulate(s, 0, 0, max)
    }
}

/// Parses an unsigned decimal number of at most `max`.
pub fn parse_unsigned(s: &str, max: u64) -> (r: Result<u64, IntError>)
    ensures
        match (r, spec_parse_unsigned(s@, max as int)) {
            (Ok(n), Ok(m)) => n == m,
            (Err(e), Err(f)) => e == f,
            _ => false,
        },
        r matches Ok(n) ==> n <= max,
{
    let c = chars_of(s);
    if c.len() == 0 {
        return Err(IntError::Empty);
    }
    if c.len() == 1 && (c[0] == '+' || c[0] == '-') {
        return Err(IntError::InvalidDigit);
    }
    let mut i: usize = if c[0] == '+' { 1 } else { 0 };
    let ghost start = i as int;
    assert(spec_parse_unsigned(s@, max as int) == accumulate(s@, start, 0, max as int));
    let mut acc: u64 = 0;
    while i < c.len()
        invariant
            c@ == s@,
            i <= c@.len(),
            acc <= max,
            spec_parse_unsigned(s@, max as int) == accumulate(s@, start, 0, max as int),
            accumulate(s@, start, 0, max as int) == accumulate(s@, i as int, acc as int, max as int),
        decreases c@.len() - i,
    {
        let ch = c[i];
        if !('0' <= ch && ch <= '9') {
            return Err(IntError::InvalidDigit);
        }
        let d = (ch as u32) - ('0' as u32);
        let next: u128 = (acc as u128) * 10 + (d as u128);
        if next > max as u128 {
            return Err(IntError::PosOverflow);
        }
        acc = next as u64;
        i = i + 1;
    }
    Ok(acc)
}

/// Text that is absent or only white space.
pub open spec fn blank_text(o: Option<String>) -> bool {
    match o {
        None => true,
        Some(s) => forall|i: int| 0 <= i < s@.len() ==> is_white_space(#[trigger] s@[i]),
    }
}

/// Text kept only when it holds more than white space.
pub open spec fn kept_text(o: Option<String>) -> Option<String> {
    if blank_text(o) { None } else { o }
}

/// An optional number: absent or `N/A` is none.
pub open spec fn optional_number(v: Option<String>, max: int) -> Result<Option<int>, IntError> {
    match v {
        None => Ok(None),
        Some(s) => if s@ == "N/A"@ {
            Ok(None)
        } else {
            match spec_parse_unsigned(s@, max) {
                Ok(n) => Ok(Some(n)),
                Err(e) => Err(e),
            }
        },
    }
}

pub open spec fn index_repeats(streams: Seq<ProbeStream>, i: int) -> bool {
    exists|j: int| 0 <= j < i && #[trigger] streams[j].index == streams[i].index
}

pub open spec fn zero_valued(s: ProbeStream) -> bool {
    s.width == Some(0u32) || s.height == Some(0u32) || s.channels == Some(0u32)
}

/// What is wrong with stream `i`, in the order it is checked.
pub open spec fn stream_problem(streams: Seq<ProbeStream>, i: int) -> Option<Seq<char>> {
    if index_repeats(streams, i) {
        Some("ffprobe response contained a duplicate stream index"@)
    } else if zero_valued(streams[i]) {
        Some("ffprobe response contained a zero-valued stream observation"@)
    } else {
        match optional_number(streams[i].sample_rate, u32::MAX as int) {
            Err(e) => Some("ffprobe returned an invalid sample rate: "@ + int_error_text(e)),
            Ok(_) => None,
        }
    }
}

/// The first problem among the first `n` streams.
pub open spec fn first_stream_problem(streams: Seq<ProbeStream>, n: int) -> Option<Seq<char>>
    decreases n,
{
    if n <= 0 {
        None
    } else {
        match first_stream_problem(streams, n - 1) {
            Some(p) => Some(p),
            None => stream_problem(streams, n - 1),
        }
    }
}

/// The first thing wrong with a response, in the order it is checked.
pub open spec fn probe_problem(output: ProbeOutput, duration: DurationField) -> Option<Seq<char>> {
    match output.format {
        None => Some("ffprobe response omitted the format object"@),
        Some(f) => if blank_text(f.format_name) {
            Some("ffprobe response omitted a non-empty format name"@)
        } else if output.streams@.len() == 0 {
            Some("ffprobe response did not contain any media streams"@)
        } else {
            match first_stream_problem(output.streams@, output.streams@.len() as int) {
                Some(p) => Some(p),
                None => match duration {
                    DurationField::Invalid(m) => Some(m@),
                    _ => match optional_number(f.bit_rate, u64::MAX as int) {
                        Err(e) => Some("ffprobe returned an invalid bit rate: "@ + int_error_text(e)),
                        Ok(_) => None,
                    },
                },
            }
        },
    }
}

/// Whether `m` is the evidence of stream `p`.
pub open spec fn stream_evidence(m: MediaStream, p: ProbeStream) -> bool {
    &&& m.index == p.index
    &&& m.codec_type == kept_text(p.codec_type)
    &&& m.codec_name == kept_text(p.codec_name)
    &&& m.width == p.width
    &&& m.height == p.height
    &&& optional_number(p.sample_rate, u32::MAX as int) == Ok::<Option<int>, IntError>(match m.sample_rate {
        Some(n) => Some(n as int),
        None => None,
    })
    &&& m.channels == p.channels
}

fn copy_text(o: &Option<String>) -> (r: Option<String>)
    ensures
        r == *o,
{
    match o {
        Some(s) => Some(s.clone()),
        None => None,
    }
}

/// Once a problem is found among the first streams, it stays the first.
proof fn lemma_first_problem_stays(streams: Seq<ProbeStream>, m: int, n: int)
    requires
        0 <= m <= n,
        first_stream_problem(streams, m) is Some,
    ensures
        first_stream_problem(streams, n) == first_stream_problem(streams, m),
    decreases n - m,
{
    if n > m {
        lemma_first_problem_stays(streams, m, n - 1);
    }
}

fn kept(o: Option<String>) -> (r: Option<String>)
    ensures
        r == kept_text(o),
{
    match o {
        Some(s) => {
            if is_blank(s.as_str()) { None } else { Some(s) }
        },
        None => None,
    }
}

fn number(v: &Option<String>, max: u64) -> (r: Result<Option<u64>, IntError>)
    ensures
        match (r, optional_number(*v, max as int)) {
            (Ok(a), Ok(b)) => match (a, b) {
                (Some(x), Some(y)) => x == y,
                (None, None) => true,
                _ => false,
            },
            (Err(e), Err(f)) => e == f,
            _ => false,
        },
        r matches Ok(Some(x)) ==> x <= max,
{
    match v {
        None => Ok(None),
        Some(s) => {
            let c = chars_of(s.as_str());
            proof { reveal_strlit("N/A"); }
            if c.len() == 3 && c[0] == 'N' && c[1] == '/' && c[2] == 'A' {
                assert(s@ =~= "N/A"@);
                return Ok(None);
            }
            assert(s@ != "N/A"@) by {
                if s@ == "N/A"@ {
                    assert(c@ =~= s@);
                }
            }
            match parse_unsigned(s.as_str(), max) {
                Ok(n) => Ok(Some(n)),
                Err(e) => Err(e),
            }
        },
    }
}

fn error_text(e: IntError) -> (r: &'static str)
    ensures
        r@ == int_error_text(e),
{
    match e {
        IntError::Empty => "cannot parse integer from empty string",
        IntError::InvalidDigit => "invalid digit found in string",
        IntError::PosOverflow => "number too large to fit in target type",
    }
}

fn labelled(prefix: &str, e: IntError) -> (r: String)
    ensures
        r@ == prefix@ + int_error_text(e),
{
    let mut t: Vec<char> = Vec::new();
    push_str(&mut t, prefix);
    push_str(&mut t, error_text(e));
    assert(t@ =~= prefix@ + int_error_text(e));
    string_of(&t)
}

/// The evidence of every stream, or the first problem among them.
fn check_streams(probed: Vec<ProbeStream>) -> (r: Result<Vec<MediaStream>, String>)
    ensures
        match r {
            Err(m) => first_stream_problem(probed@, probed@.len() as int) == Some(m@),
            Ok(streams) => {
                &&& first_stream_problem(probed@, probed@.len() as int) is None
                &&& streams@.len() == probed@.len()
                &&& forall|i: int| 0 <= i < streams@.len() ==> stream_evidence(#[trigger] streams@[i], probed@[i])
            },
        },
{
    let ghost ps = probed@;
    let mut streams: Vec<MediaStream> = Vec::new();
    let mut i: usize = 0;
    while i < probed.len()
        invariant
            ps == probed@,
            i <= ps.len(),
            first_stream_problem(ps, i as int) is None,
            streams@.len() == i,
            forall|k: int| 0 <= k < i ==> stream_evidence(#[trigger] streams@[k], ps[k]),
        decreases ps.len() - i,
    {
        let mut j: usize = 0;
        while j < i
            invariant
                ps == probed@,
                i < ps.len(),
                j <= i,
                first_stream_problem(ps, i as int) is None,
                forall|k: int| 0 <= k < j ==> ps[k].index != ps[i as int].index,
            decreases i - j,
        {
            if probed[j].index == probed[i].index {
                assert(ps[j as int].index == ps[i as int].index);
                assert(index_repeats(ps, i as int));
                proof { lemma_first_problem_stays(ps, i + 1, ps.len() as int); }
                return Err(owned("ffprobe response contained a duplicate stream index"));
            }
            j = j + 1;
        }
        assert(!index_repeats(ps, i as int));
        let p = &probed[i];
        if p.width == Some(0u32) || p.height == Some(0u32) || p.channels == Some(0u32) {
            proof { lemma_first_problem_stays(ps, i + 1, ps.len() as int); }
            return Err(owned("ffprobe response contained a zero-valued stream observation"));
        }
        let sample_rate = match number(&p.sample_rate, 4294967295u64) {
            Ok(n) => n,
            Err(e) => {
                proof { lemma_first_problem_stays(ps, i + 1, ps.len() as int); }
                return Err(labelled("ffprobe returned an invalid sample rate: ", e));
            },
        };
        let sample_rate: Option<u32> = match sample_rate {
            Some(n) => Some(n as u32),
            None => None,
        };
        let ghost before = streams@;
        streams.push(MediaStream {
            index: p.index,
            codec_type: kept(copy_text(&p.codec_type)),
            codec_name: kept(copy_text(&p.codec_name)),
            width: p.width,
            height: p.height,
            sample_rate,
            channels: p.channels,
        });
        assert(forall|k: int| 0 <= k < i ==> streams@[k] == before[k]);
        i = i + 1;
    }
    Ok(streams)
}

/// The stream evidence of a prober response, or the first thing wrong with
/// it.
pub fn descriptor_from_probe(output: ProbeOutput, duration: DurationField) -> (r: Result<MediaDescriptor, String>)
    ensures
        match r {
            Err(m) => probe_problem(output, duration) == Some(m@),
            Ok(d) => {
                &&& probe_problem(output, duration) is None
                &&& output.format matches Some(f) && d.format_name == f.format_name
                &&& d.duration_seconds_bits == match duration {
                    DurationField::Seconds(b) => Some(b),
                    _ => None::<u64>,
                }
                &&& output.format matches Some(f) && optional_number(f.bit_rate, u64::MAX as int)
                    == Ok::<Option<int>, IntError>(match d.bit_rate { Some(n) => Some(n as int), None => None })
                &&& d.streams@.len() == output.streams@.len()
                &&& forall|i: int| 0 <= i < d.streams@.len() ==> stream_evidence(#[trigger] d.streams@[i], output.streams@[i])
            },
        },
{
    let format = match output.format {
        Some(f) => f,
        None => return Err(owned("ffprobe response omitted the format object")),
    };
    let format_name = match &format.format_name {
        Some(name) => {
            if is_blank(name.as_str()) {
                return Err(owned("ffprobe response omitted a non-empty format name"));
            }
            name.clone()
        },
        None => return Err(owned("ffprobe response omitted a non-empty format name")),
    };
    if output.streams.len() == 0 {
        return Err(owned("ffprobe response did not contain any media streams"));
    }
    let streams = check_streams(output.streams)?;
    let duration_seconds_bits = match &duration {
        DurationField::Invalid(m) => return Err(m.clone()),
        DurationField::Seconds(b) => Some(*b),
        DurationField::Absent => None,
    };
    let bit_rate = match number(&format.bit_rate, 18446744073709551615u64) {
        Ok(n) => n,
        Err(e) => return Err(labelled("ffprobe returned an invalid bit rate: ", e)),
    };
    Ok(MediaDescriptor { format_name: Some(format_name), duration_seconds_bits, bit_rate, streams })
}

} // verus!
