//! Read-only observations of real PNG bytes, independent of provider claims.
//!
//! Only a subset of the candidate profile is supported. Success proves byte
//! preservation and an encoded reduction; it proves nothing about file
//! stability, provider execution, resource use, artifact acceptance or write
//! authority.

use vstd::prelude::*;
use crate::digest::{blake3_hex, blake3_hex_of};
use crate::domain::EvidenceDigest;
use crate::png_candidate::{ContentIdentity, PngFacts};
use crate::text::owned;

verus! {

/// Explicit per-call ceilings.
#[derive(Debug, Clone, Copy, PartialEq, Eq, Structural)]
pub struct ByteValidationLimits {
    pub source_bytes: usize,
    pub candidate_bytes: usize,
    pub decoded_bytes_per_image: usize,
    pub chunks_per_image: usize,
    pub decoder_allocation_bytes: usize,
}

/// Content-free refusals; unsupported does not necessarily mean invalid.
#[derive(Debug, Clone, Copy, PartialEq, Eq, Structural)]
pub enum ByteRefusal {
    LimitExceeded,
    InvalidStructure,
    InvalidChecksum,
    UnsupportedPng,
    IncompleteImageStream,
    DecodeFailed,
    PreservationMismatch,
    NotSmaller,
}

/// One step of the bitwise, reflected CRC-32 (IEEE 802.3, polynomial
/// 0xEDB88320) over one bit.
pub open spec fn crc32_bit(c: u32) -> u32 {
    if c & 1u32 == 1u32 { (c >> 1u32) ^ 0xEDB8_8320u32 } else { c >> 1u32 }
}

/// The CRC register after one byte.
pub open spec fn crc32_byte(c: u32, b: u8) -> u32 {
    let x = c ^ (b as u32);
    crc32_bit(crc32_bit(crc32_bit(crc32_bit(crc32_bit(crc32_bit(crc32_bit(crc32_bit(x))))))))
}

/// The CRC register after `data`.
pub open spec fn crc32_register(c: u32, data: Seq<u8>) -> u32
    decreases data.len(),
{
    if data.len() == 0 {
        c
    } else {
        crc32_register(crc32_byte(c, data[0]), data.skip(1))
    }
}

/// The CRC-32 checksum PNG uses, of `data`.
pub open spec fn crc32_ieee(data: Seq<u8>) -> u32 {
    0xFFFF_FFFFu32 ^ crc32_register(0xFFFF_FFFFu32, data)
}

/// Computes the CRC-32 (IEEE) checksum.
///
/// Wraps `crc32fast::hash`, which computes the standard CRC-32 of the bytes;
/// the claim is that it equals the bitwise definition above.
#[verifier::external_body]
fn crc32(data: &[u8]) -> (c: u32)
    ensures
        c == crc32_ieee(data@),
{
    crc32fast::hash(data)
}

/// The big-endian 32-bit value at `i`.
pub open spec fn be32(b: Seq<u8>, i: int) -> int {
    b[i] * 16777216 + b[i + 1] * 65536 + b[i + 2] * 256 + b[i + 3]
}

/// Whether the chunk type `k` is the four bytes `a b c d`.
pub open spec fn is_tag(k: Seq<u8>, a: u8, b: u8, c: u8, d: u8) -> bool {
    k[0] == a && k[1] == b && k[2] == c && k[3] == d
}

pub open spec fn is_ihdr(k: Seq<u8>) -> bool { is_tag(k, 73, 72, 68, 82) }
pub open spec fn is_idat(k: Seq<u8>) -> bool { is_tag(k, 73, 68, 65, 84) }
pub open spec fn is_iend(k: Seq<u8>) -> bool { is_tag(k, 73, 69, 78, 68) }
pub open spec fn is_animation(k: Seq<u8>) -> bool {
    is_tag(k, 97, 99, 84, 76) || is_tag(k, 102, 99, 84, 76) || is_tag(k, 102, 100, 65, 84)
}
pub open spec fn is_plte(k: Seq<u8>) -> bool { is_tag(k, 80, 76, 84, 69) }
pub open spec fn is_trns(k: Seq<u8>) -> bool { is_tag(k, 116, 82, 78, 83) }
pub open spec fn is_gama(k: Seq<u8>) -> bool { is_tag(k, 103, 65, 77, 65) }
pub open spec fn is_srgb(k: Seq<u8>) -> bool { is_tag(k, 115, 82, 71, 66) }
pub open spec fn is_phys(k: Seq<u8>) -> bool { is_tag(k, 112, 72, 89, 115) }
pub open spec fn is_text(k: Seq<u8>) -> bool { is_tag(k, 116, 69, 88, 116) }

/// The eight-byte PNG signature.
pub open spec fn png_signature() -> Seq<u8> {
    seq![0x89u8, 0x50u8, 0x4eu8, 0x47u8, 0x0du8, 0x0au8, 0x1au8, 0x0au8]
}

pub open spec fn is_upper(c: u8) -> bool {
    65 <= c <= 90
}

pub open spec fn is_lower(c: u8) -> bool {
    97 <= c <= 122
}

/// A chunk type: four ASCII letters, the third upper case.
pub open spec fn tag_ok(k: Seq<u8>) -> bool {
    &&& forall|i: int| 0 <= i < 4 ==> is_upper(#[trigger] k[i]) || is_lower(k[i])
    &&& is_upper(k[2])
}

/// The singleton metadata chunks seen so far; the gamma value when present.
#[derive(Debug, Clone, Copy, PartialEq, Eq, Structural)]
pub struct Seen {
    pub plte: bool,
    pub trns: bool,
    pub gama: Option<u32>,
    pub srgb: bool,
    pub phys: bool,
}

/// The index of the first zero byte in `b[from..to]`, if any.
pub open spec fn first_zero(b: Seq<u8>, from: int, to: int) -> Option<int>
    decreases to - from,
{
    if from >= to {
        None
    } else if b[from] == 0 {
        Some(from)
    } else {
        first_zero(b, from + 1, to)
    }
}

pub open spec fn key_byte_ok(c: u8) -> bool {
    (32 <= c <= 126) || (161 <= c)
}

/// A tEXt keyword `b[from..to]`: 1 to 79 Latin-1 printable bytes, no
/// leading, trailing or doubled space.
pub open spec fn keyword_ok(b: Seq<u8>, from: int, to: int) -> bool {
    &&& 1 <= to - from <= 79
    &&& forall|i: int| from <= i < to ==> key_byte_ok(#[trigger] b[i])
    &&& b[from] != 32
    &&& b[to - 1] != 32
    &&& forall|i: int| from <= i < to - 1 ==> !(#[trigger] b[i] == 32 && b[i + 1] == 32)
}

/// The effect of one metadata chunk with data `b[ds..de]`.
pub open spec fn metadata_step(b: Seq<u8>, ds: int, de: int, kind: Seq<u8>, color: u8, after_idat: bool, seen: Seen) -> Result<Seen, ByteRefusal> {
    let len = de - ds;
    let singleton = is_plte(kind) || is_trns(kind) || is_gama(kind) || is_srgb(kind) || is_phys(kind);
    let already = (is_plte(kind) && seen.plte) || (is_trns(kind) && seen.trns)
        || (is_gama(kind) && seen.gama is Some) || (is_srgb(kind) && seen.srgb)
        || (is_phys(kind) && seen.phys);
    if singleton && (after_idat || already) {
        Err(ByteRefusal::InvalidStructure)
    } else if is_plte(kind) {
        if !seen.trns && len > 0 && len <= 768 && len % 3 == 0 {
            Ok(Seen { plte: true, ..seen })
        } else {
            Err(ByteRefusal::InvalidStructure)
        }
    } else if is_trns(kind) {
        if color == 2 && len == 6 { Ok(Seen { trns: true, ..seen }) } else { Err(ByteRefusal::InvalidStructure) }
    } else if is_gama(kind) {
        if !seen.plte && len == 4 && 1 <= be32(b, ds) <= 0x7fff_ffff && (!seen.srgb || be32(b, ds) == 45455) {
            Ok(Seen { gama: Some(be32(b, ds) as u32), ..seen })
        } else {
            Err(ByteRefusal::InvalidStructure)
        }
    } else if is_srgb(kind) {
        if !seen.plte && len == 1 && b[ds] <= 3 && (match seen.gama {
            Some(g) => g == 45455,
            None => true,
        }) {
            Ok(Seen { srgb: true, ..seen })
        } else {
            Err(ByteRefusal::InvalidStructure)
        }
    } else if is_phys(kind) {
        if len == 9 && b[ds + 8] <= 1 && be32(b, ds) <= 0x7fff_ffff && be32(b, ds + 4) <= 0x7fff_ffff {
            Ok(Seen { phys: true, ..seen })
        } else {
            Err(ByteRefusal::InvalidStructure)
        }
    } else if is_text(kind) {
        match first_zero(b, ds, de) {
            None => Err(ByteRefusal::InvalidStructure),
            Some(sep) => if keyword_ok(b, ds, sep) && first_zero(b, sep + 1, de) is None {
                Ok(seen)
            } else {
                Err(ByteRefusal::InvalidStructure)
            },
        }
    } else if is_lower(kind[0]) && is_lower(kind[1]) && is_lower(kind[3]) {
        Ok(seen)
    } else {
        Err(ByteRefusal::UnsupportedPng)
    }
}

/// The state of the chunk walk.
pub struct WalkView {
    pub offset: int,
    pub count: int,
    pub ihdr: Option<int>,
    pub preserved: Seq<Option<(int, int)>>,
    pub compressed: Seq<u8>,
    pub seen: Seen,
    pub idat_started: bool,
    pub idat_ended: bool,
    pub ended: bool,
}

/// The walk before the first chunk.
pub open spec fn walk_start() -> WalkView {
    WalkView {
        offset: 8,
        count: 0,
        ihdr: None,
        preserved: seq![],
        compressed: seq![],
        seen: Seen { plte: false, trns: false, gama: None, srgb: false, phys: false },
        idat_started: false,
        idat_ended: false,
        ended: false,
    }
}

/// The decoded size that IHDR data at `ds` announces.
pub open spec fn announced_size(b: Seq<u8>, ds: int) -> int {
    be32(b, ds) * be32(b, ds + 4) * (if b[ds + 9] == 2 { 3int } else { 4int })
}

/// What one chunk (type `kind`, data `b[ds..de]`, ending at `end`) does to
/// the walk, before it is recorded.
pub open spec fn chunk_effect(
    b: Seq<u8>,
    limits: ByteValidationLimits,
    s: WalkView,
    count: int,
    kind: Seq<u8>,
    ds: int,
    de: int,
    end: int,
    idat_ended: bool,
) -> Result<WalkView, ByteRefusal> {
    if is_ihdr(kind) {
        if count != 1 || de - ds != 13 {
            Err(ByteRefusal::InvalidStructure)
        } else if be32(b, ds) == 0 || be32(b, ds + 4) == 0 || be32(b, ds) > 0x7fff_ffff || be32(b, ds + 4) > 0x7fff_ffff {
            Err(ByteRefusal::InvalidStructure)
        } else if b[ds + 8] != 8 || (b[ds + 9] != 2 && b[ds + 9] != 6) || b[ds + 10] != 0 || b[ds + 11] != 0 || b[ds + 12] != 0 {
            Err(ByteRefusal::UnsupportedPng)
        } else if announced_size(b, ds) > limits.decoded_bytes_per_image {
            Err(ByteRefusal::LimitExceeded)
        } else {
            Ok(WalkView { ihdr: Some(ds), idat_ended, ..s })
        }
    } else if is_idat(kind) {
        if idat_ended {
            Err(ByteRefusal::InvalidStructure)
        } else {
            Ok(WalkView {
                preserved: if s.idat_started { s.preserved } else { s.preserved.push(None) },
                compressed: s.compressed + b.subrange(ds, de),
                idat_started: true,
                idat_ended,
                ..s
            })
        }
    } else if is_iend(kind) {
        if !s.idat_started || de != ds || end != b.len() {
            Err(ByteRefusal::InvalidStructure)
        } else {
            Ok(WalkView { ended: true, idat_ended, ..s })
        }
    } else if is_animation(kind) {
        Err(ByteRefusal::UnsupportedPng)
    } else {
        match s.ihdr {
            None => Err(ByteRefusal::InvalidStructure),
            Some(i) => match metadata_step(b, ds, de, kind, b[i + 9], s.idat_started, s.seen) {
                Err(e) => Err(e),
                Ok(seen) => Ok(WalkView { seen, idat_ended, ..s }),
            },
        }
    }
}

/// One chunk of the walk, at `s.offset`.
pub open spec fn walk_step(b: Seq<u8>, limits: ByteValidationLimits, s: WalkView) -> Result<WalkView, ByteRefusal> {
    let count = s.count + 1;
    if count > limits.chunks_per_image {
        Err(ByteRefusal::LimitExceeded)
    } else if s.offset + 8 > b.len() {
        Err(ByteRefusal::InvalidStructure)
    } else if be32(b, s.offset) > 0x7fff_ffff {
        Err(ByteRefusal::InvalidStructure)
    } else {
        let end = s.offset + be32(b, s.offset) + 12;
        let kind = b.subrange(s.offset + 4, s.offset + 8);
        if end > b.len() {
            Err(ByteRefusal::InvalidStructure)
        } else if !tag_ok(kind) {
            Err(ByteRefusal::InvalidStructure)
        } else if crc32_ieee(b.subrange(s.offset + 4, end - 4)) != be32(b, end - 4) {
            Err(ByteRefusal::InvalidChecksum)
        } else if count == 1 && !is_ihdr(kind) {
            Err(ByteRefusal::InvalidStructure)
        } else {
            let idat_ended = s.idat_ended || (!is_idat(kind) && s.idat_started);
            match chunk_effect(b, limits, s, count, kind, s.offset + 8, end - 4, end, idat_ended) {
                Err(e) => Err(e),
                Ok(t) => Ok(WalkView {
                    offset: end,
                    count,
                    preserved: if !is_idat(kind) { t.preserved.push(Some((s.offset, end))) } else { t.preserved },
                    ..t
                }),
            }
        }
    }
}

/// The whole walk from `s` to the end of the bytes.
pub open spec fn walk(b: Seq<u8>, limits: ByteValidationLimits, s: WalkView) -> Result<WalkView, ByteRefusal>
    decreases b.len() - s.offset,
{
    if s.offset >= b.len() {
        Ok(s)
    } else {
        match walk_step(b, limits, s) {
            Err(e) => Err(e),
            Ok(t) => if t.offset <= s.offset {
                Err(ByteRefusal::InvalidStructure)
            } else {
                walk(b, limits, t)
            },
        }
    }
}

fn be32_at(b: &[u8], i: usize) -> (v: u32)
    requires
        i + 4 <= b@.len(),
    ensures
        v == be32(b@, i as int),
{
    (b[i] as u32) * 16777216 + (b[i + 1] as u32) * 65536 + (b[i + 2] as u32) * 256 + (b[i + 3] as u32)
}

fn upper(c: u8) -> (r: bool)
    ensures
        r == is_upper(c),
{
    65 <= c && c <= 90
}

fn lower(c: u8) -> (r: bool)
    ensures
        r == is_lower(c),
{
    97 <= c && c <= 122
}

fn tag_is_exec(k: [u8; 4], a: u8, b: u8, c: u8, d: u8) -> (r: bool)
    ensures
        r == is_tag(k@, a, b, c, d),
{
    k[0] == a && k[1] == b && k[2] == c && k[3] == d
}

fn first_zero_exec(b: &[u8], from: usize, to: usize) -> (r: Option<usize>)
    requires
        from <= to <= b@.len(),
    ensures
        match first_zero(b@, from as int, to as int) {
            Some(i) => r == Some(i as usize),
            None => r is None,
        },
{
    let mut i = from;
    while i < to
        invariant
            from <= i <= to <= b@.len(),
            first_zero(b@, from as int, to as int) == first_zero(b@, i as int, to as int),
            forall|k: int| from <= k < i ==> b@[k] != 0,
        decreases to - i,
    {
        if b[i] == 0 {
            return Some(i);
        }
        i = i + 1;
    }
    None
}

proof fn lemma_first_zero_range(b: Seq<u8>, from: int, to: int)
    ensures
        first_zero(b, from, to) matches Some(i) ==> from <= i < to,
    decreases to - from,
{
    if from < to && b[from] != 0 {
        lemma_first_zero_range(b, from + 1, to);
    }
}

fn keyword_ok_exec(b: &[u8], from: usize, to: usize) -> (r: bool)
    requires
        from <= to <= b@.len(),
    ensures
        r == keyword_ok(b@, from as int, to as int),
{
    if to - from < 1 || to - from > 79 {
        return false;
    }
    if b[from] == 32 || b[to - 1] == 32 {
        return false;
    }
    let mut i = from;
    while i < to
        invariant
            from <= i <= to <= b@.len(),
            1 <= to - from,
            forall|k: int| from <= k < i ==> key_byte_ok(#[trigger] b@[k]),
            forall|k: int| from <= k < i && k < to - 1 ==> !(#[trigger] b@[k] == 32 && b@[k + 1] == 32),
        decreases to - i,
    {
        let c = b[i];
        if !((32 <= c && c <= 126) || 161 <= c) {
            return false;
        }
        if i + 1 < to && c == 32 && b[i + 1] == 32 {
            return false;
        }
        i = i + 1;
    }
    true
}

/// Checks one metadata chunk with data `b[ds..de]` of type `k`.
fn metadata_exec(b: &[u8], ds: usize, de: usize, k: [u8; 4], color: u8, after_idat: bool, seen: Seen) -> (r: Result<Seen, ByteRefusal>)
    requires
        ds <= de <= b@.len(),
    ensures
        r == metadata_step(b@, ds as int, de as int, k@, color, after_idat, seen),
{
    let len = de - ds;
    let plte = tag_is_exec(k, 80, 76, 84, 69);
    let trns = tag_is_exec(k, 116, 82, 78, 83);
    let gama = tag_is_exec(k, 103, 65, 77, 65);
    let srgb = tag_is_exec(k, 115, 82, 71, 66);
    let phys = tag_is_exec(k, 112, 72, 89, 115);
    let singleton = plte || trns || gama || srgb || phys;
    let already = (plte && seen.plte) || (trns && seen.trns) || (gama && seen.gama.is_some()) || (srgb && seen.srgb)
        || (phys && seen.phys);
    if singleton && (after_idat || already) {
        return Err(ByteRefusal::InvalidStructure);
    }
    if plte {
        return if !seen.trns && len > 0 && len <= 768 && len % 3 == 0 {
            Ok(Seen { plte: true, ..seen })
        } else {
            Err(ByteRefusal::InvalidStructure)
        };
    }
    if trns {
        return if color == 2 && len == 6 { Ok(Seen { trns: true, ..seen }) } else { Err(ByteRefusal::InvalidStructure) };
    }
    if gama {
        if !seen.plte && len == 4 {
            let g = be32_at(b, ds);
            if 1 <= g && g <= 0x7fff_ffff && (!seen.srgb || g == 45455) {
                return Ok(Seen { gama: Some(g), ..seen });
            }
        }
        return Err(ByteRefusal::InvalidStructure);
    }
    if srgb {
        let gamma_ok = match seen.gama {
            Some(g) => g == 45455,
            None => true,
        };
        return if !seen.plte && len == 1 && b[ds] <= 3 && gamma_ok {
            Ok(Seen { srgb: true, ..seen })
        } else {
            Err(ByteRefusal::InvalidStructure)
        };
    }
    if phys {
        if len == 9 && b[ds + 8] <= 1 && be32_at(b, ds) <= 0x7fff_ffff && be32_at(b, ds + 4) <= 0x7fff_ffff {
            return Ok(Seen { phys: true, ..seen });
        }
        return Err(ByteRefusal::InvalidStructure);
    }
    if tag_is_exec(k, 116, 69, 88, 116) {
        proof {
            lemma_first_zero_range(b@, ds as int, de as int);
        }
        return match first_zero_exec(b, ds, de) {
            None => Err(ByteRefusal::InvalidStructure),
            Some(sep) => if keyword_ok_exec(b, ds, sep) && first_zero_exec(b, sep + 1, de).is_none() {
                Ok(seen)
            } else {
                Err(ByteRefusal::InvalidStructure)
            },
        };
    }
    if lower(k[0]) && lower(k[1]) && lower(k[3]) {
        Ok(seen)
    } else {
        Err(ByteRefusal::UnsupportedPng)
    }
}

/// The exec state of the chunk walk.
pub struct WalkState {
    pub offset: usize,
    pub count: usize,
    pub ihdr: Option<usize>,
    pub preserved: Vec<Option<(usize, usize)>>,
    pub compressed: Vec<u8>,
    pub seen: Seen,
    pub idat_started: bool,
    pub idat_ended: bool,
    pub ended: bool,
}

pub open spec fn range_view(p: Option<(usize, usize)>) -> Option<(int, int)> {
    match p {
        Some((a, b)) => Some((a as int, b as int)),
        None => None,
    }
}

impl View for WalkState {
    type V = WalkView;

    open spec fn view(&self) -> WalkView {
        WalkView {
            offset: self.offset as int,
            count: self.count as int,
            ihdr: match self.ihdr {
                Some(i) => Some(i as int),
                None => None,
            },
            preserved: self.preserved@.map_values(|p: Option<(usize, usize)>| range_view(p)),
            compressed: self.compressed@,
            seen: self.seen,
            idat_started: self.idat_started,
            idat_ended: self.idat_ended,
            ended: self.ended,
        }
    }
}

/// Invariants of a walk in progress over `b`.
pub open spec fn walk_valid(b: Seq<u8>, s: WalkView) -> bool {
    &&& 8 <= s.offset <= b.len()
    &&& s.count <= s.offset
    &&& (s.ihdr matches Some(i) ==> 8 <= i && i + 13 <= b.len() && be32(b, i) <= 0x7fff_ffff && be32(b, i + 4) <= 0x7fff_ffff
        && (b[i + 9] == 2 || b[i + 9] == 6))
    &&& s.preserved.len() <= s.count
    &&& (s.ihdr matches Some(i) ==> s.preserved.len() >= 1 && s.preserved[0] == Some((i - 8, i + 17)))
    &&& forall|j: int| 0 <= j < s.preserved.len() ==> (#[trigger] s.preserved[j] matches Some((x, y)) ==> 0 <= x <= y <= b.len())
}

fn append_bytes(out: &mut Vec<u8>, b: &[u8], from: usize, to: usize)
    requires
        from <= to <= b@.len(),
    ensures
        final(out)@ == old(out)@ + b@.subrange(from as int, to as int),
{
    let mut i = from;
    while i < to
        invariant
            from <= i <= to <= b@.len(),
            out@ == old(out)@ + b@.subrange(from as int, i as int),
        decreases to - i,
    {
        out.push(b[i]);
        i = i + 1;
        assert(b@.subrange(from as int, i as int) =~= b@.subrange(from as int, i - 1).push(b@[i - 1]));
    }
}

/// Applies one chunk to the walk.
fn walk_step_exec(b: &[u8], limits: ByteValidationLimits, st: &mut WalkState) -> (r: Result<(), ByteRefusal>)
    requires
        old(st).offset < b@.len(),
        walk_valid(b@, old(st)@),
    ensures
        match walk_step(b@, limits, old(st)@) {
            Err(e) => r == Err::<(), ByteRefusal>(e),
            Ok(t) => r is Ok && final(st)@ == t && walk_valid(b@, t) && t.offset > old(st)@.offset,
        },
{
    let ghost s = st@;
    let offset = st.offset;
    assert(st.count <= st.offset);
    let total = b.len();
    assert(st.count < total);
    let count = st.count + 1;
    if count > limits.chunks_per_image {
        return Err(ByteRefusal::LimitExceeded);
    }
    if b.len() - offset < 8 {
        return Err(ByteRefusal::InvalidStructure);
    }
    let length = be32_at(b, offset) as usize;
    if length > 0x7fff_ffff {
        return Err(ByteRefusal::InvalidStructure);
    }
    if length + 12 > b.len() - offset {
        return Err(ByteRefusal::InvalidStructure);
    }
    let end = offset + length + 12;
    let k: [u8; 4] = [b[offset + 4], b[offset + 5], b[offset + 6], b[offset + 7]];
    let ghost kind = b@.subrange(offset + 4, offset + 8);
    assert(k@ =~= kind);
    let all_letters = (upper(k[0]) || lower(k[0])) && (upper(k[1]) || lower(k[1])) && (upper(k[2]) || lower(k[2]))
        && (upper(k[3]) || lower(k[3]));
    if !all_letters || !upper(k[2]) {
        proof {
            if !all_letters {
                assert(!(is_upper(kind[0]) || is_lower(kind[0])) || !(is_upper(kind[1]) || is_lower(kind[1]))
                    || !(is_upper(kind[2]) || is_lower(kind[2])) || !(is_upper(kind[3]) || is_lower(kind[3])));
            }
        }
        return Err(ByteRefusal::InvalidStructure);
    }
    if crc32(vstd::slice::slice_subrange(b, offset + 4, end - 4)) != be32_at(b, end - 4) {
        return Err(ByteRefusal::InvalidChecksum);
    }
    let is_ihdr_kind = tag_is_exec(k, 73, 72, 68, 82);
    let is_idat_kind = tag_is_exec(k, 73, 68, 65, 84);
    if count == 1 && !is_ihdr_kind {
        return Err(ByteRefusal::InvalidStructure);
    }
    let ds = offset + 8;
    let de = end - 4;
    let idat_ended = st.idat_ended || (!is_idat_kind && st.idat_started);
    if is_ihdr_kind {
        if count != 1 || de - ds != 13 {
            return Err(ByteRefusal::InvalidStructure);
        }
        let width = be32_at(b, ds);
        let height = be32_at(b, ds + 4);
        if width == 0 || height == 0 || width > 0x7fff_ffff || height > 0x7fff_ffff {
            return Err(ByteRefusal::InvalidStructure);
        }
        if b[ds + 8] != 8 || (b[ds + 9] != 2 && b[ds + 9] != 6) || b[ds + 10] != 0 || b[ds + 11] != 0 || b[ds + 12] != 0 {
            return Err(ByteRefusal::UnsupportedPng);
        }
        let per_pixel: u64 = if b[ds + 9] == 2 { 3 } else { 4 };
        proof {
            let w = width as int;
            let h = height as int;
            assert(w * h <= 0x7fff_ffff * 0x7fff_ffff) by (nonlinear_arith)
                requires
                    0 <= w <= 0x7fff_ffff,
                    0 <= h <= 0x7fff_ffff,
            ;
            assert(0 <= w * h) by (nonlinear_arith)
                requires
                    0 <= w,
                    0 <= h,
            ;
        }
        let size = (width as u64) * (height as u64) * per_pixel;
        if size > limits.decoded_bytes_per_image as u64 {
            return Err(ByteRefusal::LimitExceeded);
        }
        st.ihdr = Some(ds);
        st.idat_ended = idat_ended;
    } else if is_idat_kind {
        if idat_ended {
            return Err(ByteRefusal::InvalidStructure);
        }
        if !st.idat_started {
            st.preserved.push(None);
        }
        append_bytes(&mut st.compressed, b, ds, de);
        st.idat_started = true;
        st.idat_ended = idat_ended;
    } else if tag_is_exec(k, 73, 69, 78, 68) {
        if !st.idat_started || de != ds || end != b.len() {
            return Err(ByteRefusal::InvalidStructure);
        }
        st.ended = true;
        st.idat_ended = idat_ended;
    } else if tag_is_exec(k, 97, 99, 84, 76) || tag_is_exec(k, 102, 99, 84, 76) || tag_is_exec(k, 102, 100, 65, 84) {
        return Err(ByteRefusal::UnsupportedPng);
    } else {
        let color = match st.ihdr {
            None => return Err(ByteRefusal::InvalidStructure),
            Some(i) => b[i + 9],
        };
        match metadata_exec(b, ds, de, k, color, st.idat_started, st.seen) {
            Err(e) => return Err(e),
            Ok(seen) => {
                st.seen = seen;
            },
        }
        st.idat_ended = idat_ended;
    }
    if !is_idat_kind {
        st.preserved.push(Some((offset, end)));
    }
    st.offset = end;
    st.count = count;
    proof {
        assert(st@.preserved =~= match walk_step(b@, limits, s) {
            Ok(t) => t.preserved,
            Err(_) => st@.preserved,
        });
    }
    Ok(())
}

/// The layout of a structurally valid PNG.
pub struct LayoutView {
    pub width: int,
    pub height: int,
    pub color_type: u8,
    pub row_bytes: int,
    pub sample_size: int,
    pub ihdr_start: int,
    pub preserved: Seq<Option<(int, int)>>,
    pub compressed: Seq<u8>,
}

/// What the chunk walk and the checks after it make of `b`, before the
/// image stream is inflated.
pub open spec fn spec_structure(b: Seq<u8>, limits: ByteValidationLimits) -> Result<LayoutView, ByteRefusal> {
    if !(b.len() >= 8 && b.take(8) == png_signature()) {
        Err(ByteRefusal::InvalidStructure)
    } else {
        match walk(b, limits, walk_start()) {
            Err(e) => Err(e),
            Ok(s) => if !s.ended {
                Err(ByteRefusal::InvalidStructure)
            } else {
                match s.ihdr {
                    None => Err(ByteRefusal::InvalidStructure),
                    Some(i) => {
                        let w = be32(b, i);
                        let h = be32(b, i + 4);
                        let channels = if b[i + 9] == 2 { 3int } else { 4int };
                        if w * channels > usize::MAX {
                            Err(ByteRefusal::LimitExceeded)
                        } else if w * channels * h > usize::MAX {
                            Err(ByteRefusal::LimitExceeded)
                        } else {
                            Ok(LayoutView {
                                width: w,
                                height: h,
                                color_type: b[i + 9],
                                row_bytes: w * channels,
                                sample_size: w * channels * h,
                                ihdr_start: i,
                                preserved: s.preserved,
                                compressed: s.compressed,
                            })
                        }
                    },
                }
            },
        }
    }
}

/// The layout of a structurally valid PNG: its dimensions and sample
/// geometry, where its IHDR data starts, and the byte ranges of its non-IDAT
/// chunks in order, with one marker where the IDAT run stands.
pub struct PngLayout {
    pub width: u32,
    pub height: u32,
    pub color_type: u8,
    pub row_bytes: usize,
    pub sample_size: usize,
    pub ihdr_start: usize,
    pub preserved: Vec<Option<(usize, usize)>>,
}

impl PngLayout {
    pub open spec fn matches(&self, l: LayoutView) -> bool {
        &&& self.width == l.width
        &&& self.height == l.height
        &&& self.color_type == l.color_type
        &&& self.row_bytes == l.row_bytes
        &&& self.sample_size == l.sample_size
        &&& self.ihdr_start == l.ihdr_start
        &&& self.preserved@.map_values(|p: Option<(usize, usize)>| range_view(p)) == l.preserved
    }
}

/// What inflating `stream` as one zlib stream into an output buffer of
/// `room` bytes, with a fresh decompressor and a finishing flush, reports:
/// `None` for a stream error, else whether the stream ended and the input
/// and output totals.
pub uninterp spec fn zlib_inflation(stream: Seq<u8>, room: usize) -> Option<(bool, u64, u64)>;

/// Inflates `stream` with `flate2::Decompress::new(true)` and one
/// `decompress` call with `FlushDecompress::Finish` into `room` zero bytes,
/// then reads `total_in` and `total_out`. The result is named, as a function
/// of the two arguments; inflation is deterministic.
#[verifier::external_body]
fn inflate_stream(stream: &[u8], room: usize) -> (r: Option<(bool, u64, u64)>)
    ensures
        r == zlib_inflation(stream@, room),
{
    let mut decompressor = flate2::Decompress::new(true);
    let mut output = vec![0u8; room];
    match decompressor.decompress(stream, &mut output, flate2::FlushDecompress::Finish) {
        Ok(flate2::Status::StreamEnd) => Some((true, decompressor.total_in(), decompressor.total_out())),
        Ok(_) => Some((false, decompressor.total_in(), decompressor.total_out())),
        Err(_) => None,
    }
}

/// Whether `stream` is one complete zlib stream that uses all of its bytes
/// and inflates to exactly `expected` bytes: inflated with one byte of room
/// beyond `expected`, it ends, having read every input byte and written
/// exactly `expected` bytes.
pub open spec fn zlib_exact(stream: Seq<u8>, expected: u64) -> bool {
    &&& expected < usize::MAX
    &&& match zlib_inflation(stream, (expected + 1) as usize) {
        Some((ended, used, produced)) => ended && used == stream.len() && produced == expected,
        None => false,
    }
}

/// Requires the complete first zlib stream, exactly `expected` output bytes
/// and no unused input.
fn check_zlib(input: &[u8], expected: u64) -> (r: Result<(), ByteRefusal>)
    ensures
        r == (if zlib_exact(input@, expected) {
            Ok::<(), ByteRefusal>(())
        } else {
            Err::<(), ByteRefusal>(ByteRefusal::IncompleteImageStream)
        }),
{
    if expected >= usize::MAX as u64 {
        return Err(ByteRefusal::IncompleteImageStream);
    }
    match inflate_stream(input, (expected + 1) as usize) {
        Some((ended, used, produced)) => {
            if ended && used == input.len() as u64 && produced == expected {
                Ok(())
            } else {
                Err(ByteRefusal::IncompleteImageStream)
            }
        },
        None => Err(ByteRefusal::IncompleteImageStream),
    }
}

/// What every accepted layout of `b` satisfies: its IHDR data lies inside
/// `b`, its colour type is 2 or 6, and its first preserved chunk is the IHDR
/// chunk itself.
pub open spec fn layout_sound(b: Seq<u8>, l: LayoutView) -> bool {
    &&& 8 <= l.ihdr_start
    &&& l.ihdr_start + 17 <= b.len()
    &&& l.color_type == 2 || l.color_type == 6
    &&& l.preserved.len() >= 1
    &&& l.preserved[0] == Some((l.ihdr_start - 8, l.ihdr_start + 17))
    &&& spans_within(l.preserved, b.len() as int)
}

/// Every span of `ps` lies inside `0..n`.
pub open spec fn spans_within(ps: Seq<Option<(int, int)>>, n: int) -> bool {
    forall|j: int| 0 <= j < ps.len() ==> (#[trigger] ps[j] matches Some((x, y)) ==> 0 <= x <= y <= n)
}

/// Whether the image stream of a layout is one complete zlib stream that
/// inflates to exactly its filtered size: the samples and one filter byte
/// per row.
pub open spec fn stream_exact(l: LayoutView) -> bool {
    zlib_exact(l.compressed, (l.sample_size + l.height) as u64)
}

/// The layout of a structurally valid PNG whose image stream inflates to
/// exactly the announced filtered size.
pub fn inspect_png(bytes: &[u8], limits: ByteValidationLimits) -> (r: Result<PngLayout, ByteRefusal>)
    ensures
        match spec_structure(bytes@, limits) {
            Err(e) => r == Err::<PngLayout, ByteRefusal>(e),
            Ok(l) => if stream_exact(l) {
                r matches Ok(layout) && layout.matches(l)
            } else {
                r == Err::<PngLayout, ByteRefusal>(ByteRefusal::IncompleteImageStream)
            },
        },
        r matches Ok(layout) ==> layout.ihdr_start + 13 <= bytes@.len() && ranges_within(layout.preserved@, bytes@.len() as int)
            && (layout.color_type == 2 || layout.color_type == 6),
        spec_structure(bytes@, limits) matches Ok(l) ==> layout_sound(bytes@, l),
{
    let n = bytes.len();
    if n < 8 || bytes[0] != 0x89 || bytes[1] != 0x50 || bytes[2] != 0x4e || bytes[3] != 0x47 || bytes[4] != 0x0d
        || bytes[5] != 0x0a || bytes[6] != 0x1a || bytes[7] != 0x0a {
        proof {
            if n >= 8 && bytes@.take(8) == png_signature() {
                assert(bytes@.take(8)[0] == bytes@[0]);
                assert(bytes@.take(8)[1] == bytes@[1]);
                assert(bytes@.take(8)[2] == bytes@[2]);
                assert(bytes@.take(8)[3] == bytes@[3]);
                assert(bytes@.take(8)[4] == bytes@[4]);
                assert(bytes@.take(8)[5] == bytes@[5]);
                assert(bytes@.take(8)[6] == bytes@[6]);
                assert(bytes@.take(8)[7] == bytes@[7]);
            }
        }
        return Err(ByteRefusal::InvalidStructure);
    }
    assert(bytes@.take(8) =~= png_signature());
    let mut st = WalkState {
        offset: 8,
        count: 0,
        ihdr: None,
        preserved: Vec::new(),
        compressed: Vec::new(),
        seen: Seen { plte: false, trns: false, gama: None, srgb: false, phys: false },
        idat_started: false,
        idat_ended: false,
        ended: false,
    };
    assert(st@.preserved =~= walk_start().preserved);
    assert(st@ == walk_start());
    while st.offset < n
        invariant
            n == bytes@.len(),
            n >= 8,
            bytes@.take(8) == png_signature(),
            walk_valid(bytes@, st@),
            walk(bytes@, limits, walk_start()) == walk(bytes@, limits, st@),
        decreases n - st.offset,
    {
        let ghost before = st@;
        match walk_step_exec(bytes, limits, &mut st) {
            Err(e) => {
                assert(walk(bytes@, limits, before) == Err::<WalkView, ByteRefusal>(e));
                return Err(e);
            },
            Ok(()) => {},
        }
        assert(walk(bytes@, limits, before) == walk(bytes@, limits, st@));
    }
    if !st.ended {
        return Err(ByteRefusal::InvalidStructure);
    }
    let i = match st.ihdr {
        None => return Err(ByteRefusal::InvalidStructure),
        Some(i) => i,
    };
    let width = be32_at(bytes, i);
    let height = be32_at(bytes, i + 4);
    let channels: usize = if bytes[i + 9] == 2 { 3 } else { 4 };
    let row_bytes = match (width as usize).checked_mul(channels) {
        Some(v) => v,
        None => return Err(ByteRefusal::LimitExceeded),
    };
    let sample_size = match row_bytes.checked_mul(height as usize) {
        Some(v) => v,
        None => return Err(ByteRefusal::LimitExceeded),
    };
    proof {
        let w = width as int;
        let h = height as int;
        let c = channels as int;
        assert(w * c * h <= 0x7fff_ffff * 4 * 0x7fff_ffff) by (nonlinear_arith)
            requires
                0 <= w <= 0x7fff_ffff,
                0 <= h <= 0x7fff_ffff,
                0 <= c <= 4,
        ;
    }
    let filtered_size = (sample_size as u64) + (height as u64);
    check_zlib(st.compressed.as_slice(), filtered_size)?;
    proof {
        assert forall|j: int| 0 <= j < st.preserved@.len() implies
            (#[trigger] st.preserved@[j] matches Some((x, y)) ==> x <= y <= bytes@.len()) by {
            assert(st@.preserved[j] == range_view(st.preserved@[j]));
        }
    }
    Ok(PngLayout {
        width,
        height,
        color_type: bytes[i + 9],
        row_bytes,
        sample_size,
        ihdr_start: i,
        preserved: st.preserved,
    })
}

/// The eight big-endian bytes of `n`.
pub open spec fn be64_bytes(n: int) -> Seq<u8> {
    seq![
        (n / 0x100_0000_0000_0000 % 256) as u8,
        (n / 0x1_0000_0000_0000 % 256) as u8,
        (n / 0x100_0000_0000 % 256) as u8,
        (n / 0x1_0000_0000 % 256) as u8,
        (n / 0x100_0000 % 256) as u8,
        (n / 0x1_0000 % 256) as u8,
        (n / 0x100 % 256) as u8,
        (n % 256) as u8,
    ]
}

/// The record of the non-IDAT chunks `ps` of `b`: each chunk as a zero
/// byte, its length in eight big-endian bytes and its raw bytes; the IDAT
/// run as a single one byte.
pub open spec fn preservation_records(b: Seq<u8>, ps: Seq<Option<(int, int)>>) -> Seq<u8>
    decreases ps.len(),
{
    if ps.len() == 0 {
        seq![]
    } else {
        preservation_records(b, ps.drop_last()) + match ps.last() {
            Some((x, y)) => seq![0u8] + be64_bytes(y - x) + b.subrange(x, y),
            None => seq![1u8],
        }
    }
}

pub const PRESERVATION_DOMAIN: &'static str = "optiflow.png-preservation.v1";

/// The bytes whose digest identifies the preserved chunks.
pub open spec fn preservation_input(b: Seq<u8>, ps: Seq<Option<(int, int)>>) -> Seq<u8> {
    vstd::utf8::encode_utf8(PRESERVATION_DOMAIN@) + seq![0u8] + preservation_records(b, ps)
}

/// A BLAKE3-256 evidence digest of `data`.
pub open spec fn digest_of(d: EvidenceDigest, data: Seq<u8>) -> bool {
    d.algorithm@ == "blake3-256"@ && d.value@ == blake3_hex(data)
}

fn digest_bytes(data: &[u8]) -> (d: EvidenceDigest)
    ensures
        digest_of(d, data@),
{
    EvidenceDigest { algorithm: owned("blake3-256"), value: blake3_hex_of(data) }
}

/// The content identity of `data`: its digest and length.
pub open spec fn identity_of(c: ContentIdentity, data: Seq<u8>) -> bool {
    digest_of(c.digest, data) && c.logical_bytes == data.len()
}

fn identity(data: &[u8]) -> (c: ContentIdentity)
    ensures
        identity_of(c, data@),
{
    ContentIdentity { digest: digest_bytes(data), logical_bytes: data.len() as u64 }
}

fn push_be64(out: &mut Vec<u8>, n: u64)
    ensures
        final(out)@ == old(out)@ + be64_bytes(n as int),
{
    out.push((n / 0x100_0000_0000_0000 % 256) as u8);
    out.push((n / 0x1_0000_0000_0000 % 256) as u8);
    out.push((n / 0x100_0000_0000 % 256) as u8);
    out.push((n / 0x1_0000_0000 % 256) as u8);
    out.push((n / 0x100_0000 % 256) as u8);
    out.push((n / 0x1_0000 % 256) as u8);
    out.push((n / 0x100 % 256) as u8);
    out.push((n % 256) as u8);
    assert(final(out)@ =~= old(out)@ + be64_bytes(n as int));
}

pub open spec fn ranges_view(ps: Seq<Option<(usize, usize)>>) -> Seq<Option<(int, int)>> {
    ps.map_values(|p: Option<(usize, usize)>| range_view(p))
}

pub open spec fn ranges_within(ps: Seq<Option<(usize, usize)>>, n: int) -> bool {
    forall|j: int| 0 <= j < ps.len() ==> (#[trigger] ps[j] matches Some((x, y)) ==> x <= y <= n)
}

fn preservation_digest(b: &[u8], ps: &Vec<Option<(usize, usize)>>) -> (d: EvidenceDigest)
    requires
        ranges_within(ps@, b@.len() as int),
    ensures
        digest_of(d, preservation_input(b@, ranges_view(ps@))),
{
    let mut out = vstd::slice::slice_to_vec(PRESERVATION_DOMAIN.as_bytes());
    out.push(0u8);
    let ghost prefix = out@;
    let mut j: usize = 0;
    assert(ranges_view(ps@).take(0) =~= Seq::<Option<(int, int)>>::empty());
    while j < ps.len()
        invariant
            j <= ps@.len(),
            ranges_within(ps@, b@.len() as int),
            out@ == prefix + preservation_records(b@, ranges_view(ps@).take(j as int)),
        decreases ps@.len() - j,
    {
        let ghost before = out@;
        assert(ranges_view(ps@).take(j + 1).drop_last() =~= ranges_view(ps@).take(j as int));
        assert(ranges_view(ps@).take(j + 1).last() == range_view(ps@[j as int]));
        match ps[j] {
            Some((x, y)) => {
                assert(ps@[j as int] matches Some((x1, y1)) ==> x1 <= y1 <= b@.len());
                out.push(0u8);
                push_be64(&mut out, (y - x) as u64);
                let mut i = x;
                while i < y
                    invariant
                        x <= i <= y <= b@.len(),
                        out@ == before + seq![0u8] + be64_bytes((y - x) as int) + b@.subrange(x as int, i as int),
                    decreases y - i,
                {
                    out.push(b[i]);
                    i = i + 1;
                    assert(b@.subrange(x as int, i as int) =~= b@.subrange(x as int, i - 1).push(b@[i - 1]));
                }
                assert(out@ =~= prefix + preservation_records(b@, ranges_view(ps@).take(j + 1)));
            },
            None => {
                out.push(1u8);
                assert(out@ =~= prefix + preservation_records(b@, ranges_view(ps@).take(j + 1)));
            },
        }
        j = j + 1;
    }
    assert(ranges_view(ps@).take(ps@.len() as int) =~= ranges_view(ps@));
    assert(out@ =~= preservation_input(b@, ranges_view(ps@)));
    digest_bytes(out.as_slice())
}

/// A decoded frame as the PNG decoder reported it.
pub struct DecodedFrame {
    pub width: u32,
    pub height: u32,
    pub eight_bit: bool,
    pub color_type: u8,
    pub line_size: usize,
    pub samples: Vec<u8>,
    /// Whether finishing the image failed, and if so whether a decoder limit
    /// was exceeded.
    pub finish_failure: Option<bool>,
}

/// How far decoding the image with the PNG decoder got.
pub enum DecodeOutcome {
    /// Reading the image header failed; whether a decoder limit was exceeded.
    InfoFailed { limits_exceeded: bool },
    /// The decoder's output buffer size differed from the layout's samples.
    BufferSizeReported { output_buffer_size: Option<usize> },
    /// Decoding the frame failed; whether a decoder limit was exceeded.
    FrameFailed { limits_exceeded: bool },
    /// The frame was decoded.
    Frame(DecodedFrame),
}

/// What `png::Decoder::read_info` reports for `bytes` under an allocation
/// limit of `limit` bytes: whether a limit was exceeded when it fails, else
/// the reader's `output_buffer_size`.
pub uninterp spec fn png_header_of(bytes: Seq<u8>, limit: usize) -> Result<Option<usize>, bool>;

/// What `png::Reader::next_frame` reports when the first frame of `bytes` is
/// decoded into a buffer of `sample_size` bytes: `None` when reading the
/// header or the frame fails, else the frame's width, height, whether its bit
/// depth is eight, its colour type, its line size, the samples written, and
/// whether `finish` then failed.
pub uninterp spec fn png_frame_of(bytes: Seq<u8>, limit: usize, sample_size: usize) -> Option<(u32, u32, bool, u8, usize, Seq<u8>, bool)>;

/// Whether the first `png::DecodingError` met while reading the header, the
/// first frame (into `sample_size` bytes) and the end of `bytes` is
/// `LimitsExceeded`; false when no step fails.
pub uninterp spec fn png_failure_of(bytes: Seq<u8>, limit: usize, sample_size: usize) -> bool;

/// Reads the PNG header of `bytes` with `png::Decoder` (checksums verified,
/// text and ICC chunks skipped, at most `limit` bytes allocated) and reports
/// `output_buffer_size`, or whether the failure was `LimitsExceeded`. The
/// result is named as a function of the arguments. Ancillary chunks whose CRC
/// fails are left to the decoder's default; the structure walk refuses every
/// such input before any decoding.
#[verifier::external_body]
fn png_header(bytes: &[u8], limit: usize) -> (r: Result<Option<usize>, bool>)
    ensures
        r == png_header_of(bytes@, limit),
{
    let mut decoder = png::Decoder::new_with_limits(std::io::Cursor::new(bytes), png::Limits { bytes: limit });
    decoder.ignore_checksums(false);
    decoder.set_ignore_text_chunk(true);
    decoder.set_ignore_iccp_chunk(true);
    match decoder.read_info() {
        Ok(reader) => Ok(reader.output_buffer_size()),
        Err(e) => Err(matches!(e, png::DecodingError::LimitsExceeded)),
    }
}

/// Decodes the first frame of `bytes`, configured as `png_header` is, into
/// `sample_size` zero bytes with `Reader::next_frame`, then calls
/// `Reader::finish`. The result is named as a function of the arguments.
#[verifier::external_body]
fn png_frame(bytes: &[u8], limit: usize, sample_size: usize) -> (r: Option<(u32, u32, bool, u8, usize, Vec<u8>, bool)>)
    ensures
        match r {
            Some(t) => png_frame_of(bytes@, limit, sample_size) == Some((t.0, t.1, t.2, t.3, t.4, t.5@, t.6)),
            None => png_frame_of(bytes@, limit, sample_size) is None,
        },
{
    let mut decoder = png::Decoder::new_with_limits(std::io::Cursor::new(bytes), png::Limits { bytes: limit });
    decoder.ignore_checksums(false);
    decoder.set_ignore_text_chunk(true);
    decoder.set_ignore_iccp_chunk(true);
    let mut samples = vec![0u8; sample_size];
    let mut reader = match decoder.read_info() {
        Ok(reader) => reader,
        Err(_) => return None,
    };
    match reader.next_frame(&mut samples) {
        Ok(o) => Some((o.width, o.height, o.bit_depth == png::BitDepth::Eight, o.color_type as u8, o.line_size, samples, reader.finish().is_err())),
        Err(_) => None,
    }
}

/// Runs the steps of `png_frame` again and tells whether the first error
/// among them is `png::DecodingError::LimitsExceeded`. The result is named
/// as a function of the arguments.
#[verifier::external_body]
fn png_failure(bytes: &[u8], limit: usize, sample_size: usize) -> (r: bool)
    ensures
        r == png_failure_of(bytes@, limit, sample_size),
{
    let mut decoder = png::Decoder::new_with_limits(std::io::Cursor::new(bytes), png::Limits { bytes: limit });
    decoder.ignore_checksums(false);
    decoder.set_ignore_text_chunk(true);
    decoder.set_ignore_iccp_chunk(true);
    let mut samples = vec![0u8; sample_size];
    let error = match decoder.read_info() {
        Err(e) => e,
        Ok(mut reader) => match reader.next_frame(&mut samples) {
            Err(e) => e,
            Ok(_) => match reader.finish() { Err(e) => e, Ok(()) => return false },
        },
    };
    matches!(error, png::DecodingError::LimitsExceeded)
}

/// How decoding `b` under `limit` relates to `outcome`: the header's
/// failure, a buffer size other than `sample_size`, the frame's failure, or
/// the decoded frame and whether finishing it failed.
pub open spec fn decoded_as(outcome: DecodeOutcome, b: Seq<u8>, limit: usize, sample_size: usize) -> bool {
    match png_header_of(b, limit) {
        Err(k) => outcome == DecodeOutcome::InfoFailed { limits_exceeded: k },
        Ok(reported) => if reported != Some(sample_size) {
            outcome == DecodeOutcome::BufferSizeReported { output_buffer_size: reported }
        } else {
            match png_frame_of(b, limit, sample_size) {
                None => outcome == DecodeOutcome::FrameFailed { limits_exceeded: png_failure_of(b, limit, sample_size) },
                Some(t) => outcome matches DecodeOutcome::Frame(f) && f.width == t.0 && f.height == t.1 && f.eight_bit == t.2
                    && f.color_type == t.3 && f.line_size == t.4 && f.samples@ == t.5
                    && f.finish_failure == (if t.6 { Some(png_failure_of(b, limit, sample_size)) } else { None::<bool> }),
            }
        },
    }
}

/// Decodes `bytes` with the PNG decoder under an allocation limit of
/// `limit` bytes, expecting `sample_size` bytes of samples: the header is
/// read first, and the frame is decoded only when the decoder's buffer size
/// is `sample_size`.
pub fn decode_png(bytes: &[u8], limit: usize, sample_size: usize) -> (r: DecodeOutcome)
    ensures
        decoded_as(r, bytes@, limit, sample_size),
{
    let reported = match png_header(bytes, limit) {
        Err(k) => return DecodeOutcome::InfoFailed { limits_exceeded: k },
        Ok(reported) => reported,
    };
    let matches_size = match reported {
        Some(n) => n == sample_size,
        None => false,
    };
    if !matches_size {
        return DecodeOutcome::BufferSizeReported { output_buffer_size: reported };
    }
    match png_frame(bytes, limit, sample_size) {
        None => DecodeOutcome::FrameFailed { limits_exceeded: png_failure(bytes, limit, sample_size) },
        Some((width, height, eight_bit, color_type, line_size, samples, finish_failed)) => {
            let finish_failure = if finish_failed { Some(png_failure(bytes, limit, sample_size)) } else { None };
            DecodeOutcome::Frame(DecodedFrame { width, height, eight_bit, color_type, line_size, samples, finish_failure })
        },
    }
}

/// What decoding yields for layout `l`: the decoded samples, or the first
/// refusal among the header, the buffer size, the frame, its agreement with
/// the layout and the end of the image.
pub open spec fn spec_decoded(b: Seq<u8>, limit: usize, l: LayoutView) -> Result<Seq<u8>, ByteRefusal> {
    let size = l.sample_size as usize;
    match png_header_of(b, limit) {
        Err(k) => Err(decode_refusal(k)),
        Ok(reported) => if reported != Some(size) {
            Err(ByteRefusal::DecodeFailed)
        } else {
            match png_frame_of(b, limit, size) {
                None => Err(decode_refusal(png_failure_of(b, limit, size))),
                Some(t) => if !(t.0 == l.width && t.1 == l.height && t.2 && t.3 == l.color_type && t.4 == l.row_bytes
                    && t.5.len() == l.sample_size) {
                    Err(ByteRefusal::DecodeFailed)
                } else if t.6 {
                    Err(decode_refusal(png_failure_of(b, limit, size)))
                } else {
                    Ok(t.5)
                },
            }
        },
    }
}

/// The refusal of a decoder error.
pub open spec fn decode_refusal(limits_exceeded: bool) -> ByteRefusal {
    if limits_exceeded { ByteRefusal::LimitExceeded } else { ByteRefusal::DecodeFailed }
}

/// Whether a decoded frame agrees with the layout it was decoded from.
pub open spec fn frame_agrees(f: DecodedFrame, l: PngLayout) -> bool {
    &&& f.width == l.width
    &&& f.height == l.height
    &&& f.eight_bit
    &&& f.color_type == l.color_type
    &&& f.line_size == l.row_bytes
    &&& f.samples@.len() == l.sample_size
}

/// What an image observation yields.
pub struct Observed {
    pub preserved: Vec<Option<(usize, usize)>>,
    pub samples: Vec<u8>,
    pub facts: PngFacts,
}

/// The facts recorded for a layout and its decoded samples.
pub open spec fn facts_of(f: PngFacts, b: Seq<u8>, l: PngLayout, samples: Seq<u8>) -> bool {
    &&& f.width == l.width
    &&& f.height == l.height
    &&& f.bit_depth == 8
    &&& f.color_type == l.color_type
    &&& f.frames == 1
    &&& f.complete_decode
    &&& !f.animation_chunks
    &&& !f.unknown_unsafe_to_copy_chunks
    &&& f.decoded_bytes == l.sample_size
    &&& digest_of(f.ihdr_digest, b.subrange(l.ihdr_start as int, l.ihdr_start + 13))
    &&& digest_of(f.decoded_samples_digest, samples)
    &&& digest_of(f.non_idat_chunks_digest, preservation_input(b, ranges_view(l.preserved@)))
}

/// Completes the observation of an image from its layout and how decoding
/// it went.
pub fn complete_observation(bytes: &[u8], layout: PngLayout, decoded: DecodeOutcome) -> (r: Result<Observed, ByteRefusal>)
    requires
        layout.ihdr_start + 13 <= bytes@.len(),
        ranges_within(layout.preserved@, bytes@.len() as int),
    ensures
        match decoded {
            DecodeOutcome::InfoFailed { limits_exceeded } => r == Err::<Observed, ByteRefusal>(decode_refusal(limits_exceeded)),
            DecodeOutcome::BufferSizeReported { .. } => r == Err::<Observed, ByteRefusal>(ByteRefusal::DecodeFailed),
            DecodeOutcome::FrameFailed { limits_exceeded } => r == Err::<Observed, ByteRefusal>(decode_refusal(limits_exceeded)),
            DecodeOutcome::Frame(f) => if !frame_agrees(f, layout) {
                r == Err::<Observed, ByteRefusal>(ByteRefusal::DecodeFailed)
            } else {
                match f.finish_failure {
                    Some(l) => r == Err::<Observed, ByteRefusal>(decode_refusal(l)),
                    None => r matches Ok(o) && o.preserved@ == layout.preserved@ && o.samples@ == f.samples@
                        && facts_of(o.facts, bytes@, layout, f.samples@),
                }
            },
        },
{
    let frame = match decoded {
        DecodeOutcome::InfoFailed { limits_exceeded } => {
            return Err(if limits_exceeded { ByteRefusal::LimitExceeded } else { ByteRefusal::DecodeFailed });
        },
        DecodeOutcome::BufferSizeReported { .. } => return Err(ByteRefusal::DecodeFailed),
        DecodeOutcome::FrameFailed { limits_exceeded } => {
            return Err(if limits_exceeded { ByteRefusal::LimitExceeded } else { ByteRefusal::DecodeFailed });
        },
        DecodeOutcome::Frame(f) => f,
    };
    if frame.width != layout.width || frame.height != layout.height || !frame.eight_bit
        || frame.color_type != layout.color_type || frame.line_size != layout.row_bytes
        || frame.samples.len() != layout.sample_size {
        return Err(ByteRefusal::DecodeFailed);
    }
    match frame.finish_failure {
        Some(limits_exceeded) => {
            return Err(if limits_exceeded { ByteRefusal::LimitExceeded } else { ByteRefusal::DecodeFailed });
        },
        None => {},
    }
    let total = bytes.len();
    assert(layout.ihdr_start + 13 <= total);
    let ihdr = vstd::slice::slice_subrange(bytes, layout.ihdr_start, layout.ihdr_start + 13);
    let facts = PngFacts {
        width: layout.width,
        height: layout.height,
        bit_depth: 8,
        color_type: layout.color_type,
        frames: 1,
        complete_decode: true,
        animation_chunks: false,
        unknown_unsafe_to_copy_chunks: false,
        decoded_bytes: layout.sample_size as u64,
        ihdr_digest: digest_bytes(ihdr),
        decoded_samples_digest: digest_bytes(frame.samples.as_slice()),
        non_idat_chunks_digest: preservation_digest(bytes, &layout.preserved),
    };
    Ok(Observed { preserved: layout.preserved, samples: frame.samples, facts })
}

/// Two PNGs that were observed byte by byte: their non-IDAT chunks and
/// decoded samples are identical, and the candidate is smaller. Only
/// validation constructs it.
pub struct ValidatedPngPair {
    source: ContentIdentity,
    candidate: ContentIdentity,
    source_png: PngFacts,
    candidate_png: PngFacts,
}

impl ValidatedPngPair {
    #[verifier::type_invariant]
    spec fn smaller(self) -> bool {
        self.candidate.logical_bytes < self.source.logical_bytes
    }

    pub closed spec fn source_view(self) -> ContentIdentity {
        self.source
    }

    pub closed spec fn candidate_view(self) -> ContentIdentity {
        self.candidate
    }

    pub closed spec fn source_png_view(self) -> PngFacts {
        self.source_png
    }

    pub closed spec fn candidate_png_view(self) -> PngFacts {
        self.candidate_png
    }

    pub fn source(&self) -> (c: &ContentIdentity)
        ensures
            *c == self.source_view(),
    {
        &self.source
    }

    pub fn candidate(&self) -> (c: &ContentIdentity)
        ensures
            *c == self.candidate_view(),
    {
        &self.candidate
    }

    pub fn source_png(&self) -> (f: &PngFacts)
        ensures
            *f == self.source_png_view(),
    {
        &self.source_png
    }

    pub fn candidate_png(&self) -> (f: &PngFacts)
        ensures
            *f == self.candidate_png_view(),
    {
        &self.candidate_png
    }

    /// Logical encoded bytes saved; keeping both files uses more space.
    pub fn encoded_byte_reduction(&self) -> (n: u64)
        ensures
            n == self.source_view().logical_bytes - self.candidate_view().logical_bytes,
    {
        proof {
            use_type_invariant(self);
        }
        self.source.logical_bytes - self.candidate.logical_bytes
    }
}

/// Whether the per-call limits refuse a pair of inputs before any byte is
/// read.
pub open spec fn pair_limits_refused(source_len: int, candidate_len: int, limits: ByteValidationLimits) -> bool {
    source_len > limits.source_bytes || candidate_len > limits.candidate_bytes || limits.decoded_bytes_per_image == 0
        || limits.chunks_per_image == 0 || limits.decoder_allocation_bytes == 0
}

/// The preserved chunks of two images, record by record, are identical.
pub open spec fn records_equal(a: Seq<u8>, ra: Seq<Option<(int, int)>>, b: Seq<u8>, rb: Seq<Option<(int, int)>>) -> bool {
    &&& ra.len() == rb.len()
    &&& forall|j: int| 0 <= j < ra.len() ==> match (#[trigger] ra[j], rb[j]) {
        (None, None) => true,
        (Some((x, y)), Some((u, v))) => a.subrange(x, y) == b.subrange(u, v),
        _ => false,
    }
}

fn same_range_bytes(a: &[u8], x: usize, y: usize, b: &[u8], u: usize, v: usize) -> (r: bool)
    requires
        x <= y <= a@.len(),
        u <= v <= b@.len(),
    ensures
        r == (a@.subrange(x as int, y as int) == b@.subrange(u as int, v as int)),
{
    if y - x != v - u {
        assert(a@.subrange(x as int, y as int).len() != b@.subrange(u as int, v as int).len());
        return false;
    }
    let mut i: usize = 0;
    while i < y - x
        invariant
            x <= y <= a@.len(),
            u <= v <= b@.len(),
            y - x == v - u,
            i <= y - x,
            forall|k: int| 0 <= k < i ==> #[trigger] a@.subrange(x as int, y as int)[k] == b@.subrange(u as int, v as int)[k],
        decreases y - x - i,
    {
        if a[x + i] != b[u + i] {
            assert(a@.subrange(x as int, y as int)[i as int] != b@.subrange(u as int, v as int)[i as int]);
            return false;
        }
        i = i + 1;
    }
    assert(a@.subrange(x as int, y as int) =~= b@.subrange(u as int, v as int));
    true
}

fn records_match(a: &[u8], ra: &Vec<Option<(usize, usize)>>, b: &[u8], rb: &Vec<Option<(usize, usize)>>) -> (r: bool)
    requires
        ranges_within(ra@, a@.len() as int),
        ranges_within(rb@, b@.len() as int),
    ensures
        r == records_equal(a@, ranges_view(ra@), b@, ranges_view(rb@)),
{
    if ra.len() != rb.len() {
        return false;
    }
    let mut j: usize = 0;
    while j < ra.len()
        invariant
            ra@.len() == rb@.len(),
            j <= ra@.len(),
            ranges_within(ra@, a@.len() as int),
            ranges_within(rb@, b@.len() as int),
            forall|k: int| 0 <= k < j ==> match (#[trigger] ranges_view(ra@)[k], ranges_view(rb@)[k]) {
                (None, None) => true,
                (Some((x, y)), Some((u, v))) => a@.subrange(x, y) == b@.subrange(u, v),
                _ => false,
            },
        decreases ra@.len() - j,
    {
        let ghost k = j as int;
        assert(ranges_view(ra@)[k] == range_view(ra@[k]));
        assert(ranges_view(rb@)[k] == range_view(rb@[k]));
        let same = match (ra[j], rb[j]) {
            (None, None) => true,
            (Some((x, y)), Some((u, v))) => {
                assert(ra@[k] matches Some((x1, y1)) ==> x1 <= y1 <= a@.len());
                assert(rb@[k] matches Some((u1, v1)) ==> u1 <= v1 <= b@.len());
                same_range_bytes(a, x, y, b, u, v)
            },
            _ => false,
        };
        if !same {
            return false;
        }
        j = j + 1;
    }
    true
}

fn same_samples(a: &Vec<u8>, b: &Vec<u8>) -> (r: bool)
    ensures
        r == (a@ == b@),
{
    if a.len() != b.len() {
        return false;
    }
    let mut i: usize = 0;
    while i < a.len()
        invariant
            a@.len() == b@.len(),
            i <= a@.len(),
            forall|k: int| 0 <= k < i ==> a@[k] == b@[k],
        decreases a@.len() - i,
    {
        if a[i] != b[i] {
            return false;
        }
        i = i + 1;
    }
    assert(a@ =~= b@);
    true
}

/// The facts recorded for a layout view and its decoded samples.
pub open spec fn layout_facts(f: PngFacts, b: Seq<u8>, l: LayoutView, samples: Seq<u8>) -> bool {
    &&& f.width == l.width
    &&& f.height == l.height
    &&& f.bit_depth == 8
    &&& f.color_type == l.color_type
    &&& f.frames == 1
    &&& f.complete_decode
    &&& !f.animation_chunks
    &&& !f.unknown_unsafe_to_copy_chunks
    &&& f.decoded_bytes == l.sample_size
    &&& digest_of(f.ihdr_digest, b.subrange(l.ihdr_start, l.ihdr_start + 13))
    &&& digest_of(f.decoded_samples_digest, samples)
    &&& digest_of(f.non_idat_chunks_digest, preservation_input(b, l.preserved))
}

/// What observing `b` yields: its layout and decoded samples, or the first
/// refusal of the structure walk, the image stream check and the decoder.
pub open spec fn spec_observe(b: Seq<u8>, limits: ByteValidationLimits) -> Result<(LayoutView, Seq<u8>), ByteRefusal> {
    match spec_structure(b, limits) {
        Err(e) => Err(e),
        Ok(l) => if !stream_exact(l) {
            Err(ByteRefusal::IncompleteImageStream)
        } else {
            match spec_decoded(b, limits.decoder_allocation_bytes, l) {
                Err(e) => Err(e),
                Ok(samples) => Ok((l, samples)),
            }
        },
    }
}

/// Observes one PNG: its structure, its image stream and its decoded
/// samples, with the facts recorded for them.
pub fn observe_png(bytes: &[u8], limits: ByteValidationLimits) -> (r: Result<Observed, ByteRefusal>)
    ensures
        match spec_observe(bytes@, limits) {
            Err(e) => r == Err::<Observed, ByteRefusal>(e),
            Ok((l, samples)) => r matches Ok(o) && ranges_view(o.preserved@) == l.preserved && o.samples@ == samples
                && layout_facts(o.facts, bytes@, l, samples) && ranges_within(o.preserved@, bytes@.len() as int)
                && l == spec_structure(bytes@, limits)->Ok_0 && layout_sound(bytes@, l),
        },
{
    let layout = inspect_png(bytes, limits)?;
    let ghost l = spec_structure(bytes@, limits)->Ok_0;
    let decoded = decode_png(bytes, limits.decoder_allocation_bytes, layout.sample_size);
    let ghost preserved = layout.preserved@;
    let observed = complete_observation(bytes, layout, decoded);
    proof {
        assert(ranges_view(preserved) =~= l.preserved);
    }
    observed
}

/// Whether two fact records agree in every field, digests compared by
/// their text.
pub open spec fn same_facts(a: PngFacts, b: PngFacts) -> bool {
    &&& a.width == b.width
    &&& a.height == b.height
    &&& a.bit_depth == b.bit_depth
    &&& a.color_type == b.color_type
    &&& a.frames == b.frames
    &&& a.complete_decode == b.complete_decode
    &&& a.animation_chunks == b.animation_chunks
    &&& a.unknown_unsafe_to_copy_chunks == b.unknown_unsafe_to_copy_chunks
    &&& a.decoded_bytes == b.decoded_bytes
    &&& a.ihdr_digest.algorithm@ == b.ihdr_digest.algorithm@
    &&& a.ihdr_digest.value@ == b.ihdr_digest.value@
    &&& a.decoded_samples_digest.algorithm@ == b.decoded_samples_digest.algorithm@
    &&& a.decoded_samples_digest.value@ == b.decoded_samples_digest.value@
    &&& a.non_idat_chunks_digest.algorithm@ == b.non_idat_chunks_digest.algorithm@
    &&& a.non_idat_chunks_digest.value@ == b.non_idat_chunks_digest.value@
}

proof fn lemma_record_bytes(a: Seq<u8>, x: int, y: int, b: Seq<u8>, u: int, v: int)
    requires
        0 <= x <= y <= a.len(),
        0 <= u <= v <= b.len(),
        a.subrange(x, y) == b.subrange(u, v),
    ensures
        seq![0u8] + be64_bytes(y - x) + a.subrange(x, y) == seq![0u8] + be64_bytes(v - u) + b.subrange(u, v),
{
    let sa = a.subrange(x, y);
    let sb = b.subrange(u, v);
    assert(sa.len() == y - x);
    assert(sb.len() == v - u);
    assert(sa.len() == sb.len());
}

proof fn lemma_records_equal_prefix(a: Seq<u8>, ra: Seq<Option<(int, int)>>, b: Seq<u8>, rb: Seq<Option<(int, int)>>)
    requires
        records_equal(a, ra, b, rb),
        spans_within(ra, a.len() as int),
        spans_within(rb, b.len() as int),
    ensures
        preservation_records(a, ra) == preservation_records(b, rb),
    decreases ra.len(),
{
    if ra.len() > 0 {
        let j = ra.len() - 1;
        let pa = ra.drop_last();
        let pb = rb.drop_last();
        assert forall|q: int| 0 <= q < pa.len() implies #[trigger] pa[q] == ra[q] && pb[q] == rb[q] by {}
        assert(records_equal(a, pa, b, pb)) by {
            assert forall|q: int| 0 <= q < pa.len() implies match (#[trigger] pa[q], pb[q]) {
                (None, None) => true,
                (Some((x, y)), Some((u, v))) => a.subrange(x, y) == b.subrange(u, v),
                _ => false,
            } by {
                assert(pa[q] == ra[q]);
                assert(pb[q] == rb[q]);
            }
        }
        assert(spans_within(pa, a.len() as int)) by {
            assert forall|q: int| 0 <= q < pa.len() implies (#[trigger] pa[q] matches Some((x, y)) ==> 0 <= x <= y <= a.len()) by {
                assert(pa[q] == ra[q]);
            }
        }
        assert(spans_within(pb, b.len() as int)) by {
            assert forall|q: int| 0 <= q < pb.len() implies (#[trigger] pb[q] matches Some((x, y)) ==> 0 <= x <= y <= b.len()) by {
                assert(pb[q] == rb[q]);
            }
        }
        lemma_records_equal_prefix(a, pa, b, pb);
        let last_a = ra[j];
        let last_b = rb[j];
        assert(ra.last() == last_a);
        assert(rb.last() == last_b);
        match (last_a, last_b) {
            (Some((x, y)), Some((u, v))) => {
                lemma_record_bytes(a, x, y, b, u, v);
            },
            _ => {},
        }
    }
}

/// Two images whose preserved chunks and decoded samples are identical
/// record the same facts.
proof fn lemma_same_facts(a: Seq<u8>, b: Seq<u8>, limits: ByteValidationLimits, fa: PngFacts, fb: PngFacts, sa: Seq<u8>, sb: Seq<u8>)
    requires
        spec_structure(a, limits) is Ok,
        spec_structure(b, limits) is Ok,
        layout_sound(a, spec_structure(a, limits)->Ok_0),
        layout_sound(b, spec_structure(b, limits)->Ok_0),
        records_equal(a, spec_structure(a, limits)->Ok_0.preserved, b, spec_structure(b, limits)->Ok_0.preserved),
        sa == sb,
        layout_facts(fa, a, spec_structure(a, limits)->Ok_0, sa),
        layout_facts(fb, b, spec_structure(b, limits)->Ok_0, sb),
    ensures
        same_facts(fa, fb),
{
    let la = spec_structure(a, limits)->Ok_0;
    let lb = spec_structure(b, limits)->Ok_0;
    let i = la.ihdr_start;
    let k = lb.ihdr_start;
    assert(la.preserved[0] == Some((i - 8, i + 17)));
    assert(lb.preserved[0] == Some((k - 8, k + 17)));
    let ca = a.subrange(i - 8, i + 17);
    let cb = b.subrange(k - 8, k + 17);
    assert(ca == cb);
    assert(a.subrange(i, i + 13) =~= ca.subrange(8, 21));
    assert(b.subrange(k, k + 13) =~= cb.subrange(8, 21));
    let ha = a.subrange(i, i + 13);
    let hb = b.subrange(k, k + 13);
    assert(ha == hb);
    assert(ha[0] == a[i] && hb[0] == b[k]);
    assert(ha[1] == a[i + 1] && hb[1] == b[k + 1]);
    assert(ha[2] == a[i + 2] && hb[2] == b[k + 2]);
    assert(ha[3] == a[i + 3] && hb[3] == b[k + 3]);
    assert(ha[4] == a[i + 4] && hb[4] == b[k + 4]);
    assert(ha[5] == a[i + 5] && hb[5] == b[k + 5]);
    assert(ha[6] == a[i + 6] && hb[6] == b[k + 6]);
    assert(ha[7] == a[i + 7] && hb[7] == b[k + 7]);
    assert(ha[9] == a[i + 9] && hb[9] == b[k + 9]);
    lemma_records_equal_prefix(a, la.preserved, b, lb.preserved);
}

/// Validates that `candidate` preserves every non-IDAT chunk and every
/// decoded sample of `source` and is smaller.
pub fn validate_png_pair(
    source: &[u8],
    candidate: &[u8],
    limits: ByteValidationLimits,
) -> (r: Result<ValidatedPngPair, ByteRefusal>)
    ensures
        if pair_limits_refused(source@.len() as int, candidate@.len() as int, limits) {
            r == Err::<ValidatedPngPair, ByteRefusal>(ByteRefusal::LimitExceeded)
        } else {
            match spec_observe(source@, limits) {
                Err(e) => r == Err::<ValidatedPngPair, ByteRefusal>(e),
                Ok((ls, ss)) => match spec_observe(candidate@, limits) {
                    Err(e) => r == Err::<ValidatedPngPair, ByteRefusal>(e),
                    Ok((lc, sc)) => if !(records_equal(source@, ls.preserved, candidate@, lc.preserved) && ss == sc) {
                        r == Err::<ValidatedPngPair, ByteRefusal>(ByteRefusal::PreservationMismatch)
                    } else if candidate@.len() >= source@.len() {
                        r == Err::<ValidatedPngPair, ByteRefusal>(ByteRefusal::NotSmaller)
                    } else {
                        r matches Ok(p) && identity_of(p.source_view(), source@) && identity_of(p.candidate_view(), candidate@)
                            && layout_facts(p.source_png_view(), source@, ls, ss)
                            && layout_facts(p.candidate_png_view(), candidate@, lc, sc)
                            && (ls.color_type == 2 || ls.color_type == 6)
                            && (lc.color_type == 2 || lc.color_type == 6)
                            && same_facts(p.source_png_view(), p.candidate_png_view())
                    },
                },
            }
        },
{
    if source.len() > limits.source_bytes || candidate.len() > limits.candidate_bytes || limits.decoded_bytes_per_image == 0
        || limits.chunks_per_image == 0 || limits.decoder_allocation_bytes == 0 {
        return Err(ByteRefusal::LimitExceeded);
    }
    let source_image = observe_png(source, limits)?;
    let candidate_image = observe_png(candidate, limits)?;
    if !records_match(source, &source_image.preserved, candidate, &candidate_image.preserved)
        || !same_samples(&source_image.samples, &candidate_image.samples) {
        return Err(ByteRefusal::PreservationMismatch);
    }
    if candidate.len() >= source.len() {
        return Err(ByteRefusal::NotSmaller);
    }
    proof {
        lemma_same_facts(source@, candidate@, limits, source_image.facts, candidate_image.facts,
            source_image.samples@, candidate_image.samples@);
    }
    Ok(ValidatedPngPair {
        source: identity(source),
        candidate: identity(candidate),
        source_png: source_image.facts,
        candidate_png: candidate_image.facts,
    })
}

/// A physical-dimensions chunk (`pHYs`) is nine bytes: two 31-bit pixel
/// counts per unit and a unit specifier, 0 for an unknown unit or 1 for the
/// metre. The first such chunk before the image data is accepted exactly
/// when its counts fit in 31 bits and its unit is one of these two; a
/// chunk of another length or with another unit is refused as an invalid
/// structure.
pub proof fn lemma_phys_chunk_rule(b: Seq<u8>, ds: int, de: int, color: u8, seen: Seen)
    requires
        0 <= ds <= de <= b.len(),
        !seen.phys,
    ensures
        de - ds == 9 && b[ds] < 128 && b[ds + 4] < 128 && (b[ds + 8] == 0 || b[ds + 8] == 1)
            ==> metadata_step(b, ds, de, seq![112u8, 72u8, 89u8, 115u8], color, false, seen)
                == Ok::<Seen, ByteRefusal>(Seen { phys: true, ..seen }),
        de - ds == 9 && b[ds + 8] > 1
            ==> metadata_step(b, ds, de, seq![112u8, 72u8, 89u8, 115u8], color, false, seen)
                == Err::<Seen, ByteRefusal>(ByteRefusal::InvalidStructure),
        de - ds == 9 && (b[ds] >= 128 || b[ds + 4] >= 128)
            ==> metadata_step(b, ds, de, seq![112u8, 72u8, 89u8, 115u8], color, false, seen)
                == Err::<Seen, ByteRefusal>(ByteRefusal::InvalidStructure),
        de - ds != 9
            ==> metadata_step(b, ds, de, seq![112u8, 72u8, 89u8, 115u8], color, false, seen)
                == Err::<Seen, ByteRefusal>(ByteRefusal::InvalidStructure),
{
    let k = seq![112u8, 72u8, 89u8, 115u8];
    assert(is_phys(k) && !is_plte(k) && !is_trns(k) && !is_gama(k) && !is_srgb(k));
    if de - ds == 9 {
        let x0 = b[ds] as int;
        let x1 = b[ds + 1] as int;
        let x2 = b[ds + 2] as int;
        let x3 = b[ds + 3] as int;
        let y0 = b[ds + 4] as int;
        let y1 = b[ds + 5] as int;
        let y2 = b[ds + 6] as int;
        let y3 = b[ds + 7] as int;
        assert(be32(b, ds) == x0 * 16777216 + x1 * 65536 + x2 * 256 + x3);
        assert(be32(b, ds + 4) == y0 * 16777216 + y1 * 65536 + y2 * 256 + y3);
        assert(0 <= x1 < 256 && 0 <= x2 < 256 && 0 <= x3 < 256 && 0 <= x0 < 256);
        assert(0 <= y1 < 256 && 0 <= y2 < 256 && 0 <= y3 < 256 && 0 <= y0 < 256);
        assert(x0 < 128 ==> x0 * 16777216 + x1 * 65536 + x2 * 256 + x3 <= 0x7fff_ffff) by (nonlinear_arith)
            requires 0 <= x1 < 256, 0 <= x2 < 256, 0 <= x3 < 256, 0 <= x0;
        assert(x0 >= 128 ==> x0 * 16777216 + x1 * 65536 + x2 * 256 + x3 > 0x7fff_ffff) by (nonlinear_arith)
            requires 0 <= x1, 0 <= x2, 0 <= x3;
        assert(y0 < 128 ==> y0 * 16777216 + y1 * 65536 + y2 * 256 + y3 <= 0x7fff_ffff) by (nonlinear_arith)
            requires 0 <= y1 < 256, 0 <= y2 < 256, 0 <= y3 < 256, 0 <= y0;
        assert(y0 >= 128 ==> y0 * 16777216 + y1 * 65536 + y2 * 256 + y3 > 0x7fff_ffff) by (nonlinear_arith)
            requires 0 <= y1, 0 <= y2, 0 <= y3;
    }
}

/// The ancillary chunks that may appear once, before the image data:
/// after the image data, or a second time, each of them is refused as an
/// invalid structure. Before it and the first time, a palette of one to
/// 256 three-byte entries, a gamma of four bytes holding a non-zero 31-bit
/// value, an sRGB rendering intent of one byte from 0 to 3, and a
/// six-byte transparency colour for a truecolour image are accepted when
/// nothing that they must precede came first (a palette before gamma or
/// sRGB, transparency before a palette) and gamma and sRGB agree.
pub proof fn lemma_singleton_chunk_rules(b: Seq<u8>, ds: int, de: int, kind: Seq<u8>, color: u8, seen: Seen)
    requires
        0 <= ds <= de <= b.len(),
        kind.len() == 4,
    ensures
        (is_plte(kind) || is_trns(kind) || is_gama(kind) || is_srgb(kind) || is_phys(kind))
            ==> metadata_step(b, ds, de, kind, color, true, seen)
                == Err::<Seen, ByteRefusal>(ByteRefusal::InvalidStructure),
        is_plte(kind) && seen.plte ==> metadata_step(b, ds, de, kind, color, false, seen)
            == Err::<Seen, ByteRefusal>(ByteRefusal::InvalidStructure),
        is_gama(kind) && seen.gama is Some ==> metadata_step(b, ds, de, kind, color, false, seen)
            == Err::<Seen, ByteRefusal>(ByteRefusal::InvalidStructure),
        is_srgb(kind) && seen.srgb ==> metadata_step(b, ds, de, kind, color, false, seen)
            == Err::<Seen, ByteRefusal>(ByteRefusal::InvalidStructure),
        is_phys(kind) && seen.phys ==> metadata_step(b, ds, de, kind, color, false, seen)
            == Err::<Seen, ByteRefusal>(ByteRefusal::InvalidStructure),
        is_plte(kind) && !seen.plte && !seen.trns && 3 <= de - ds <= 768 && (de - ds) % 3 == 0
            ==> metadata_step(b, ds, de, kind, color, false, seen) == Ok::<Seen, ByteRefusal>(Seen { plte: true, ..seen }),
        is_plte(kind) && (de - ds == 0 || de - ds > 768 || (de - ds) % 3 != 0)
            ==> metadata_step(b, ds, de, kind, color, false, seen) is Err,
        is_trns(kind) && !seen.trns && color == 2 && de - ds == 6
            ==> metadata_step(b, ds, de, kind, color, false, seen) == Ok::<Seen, ByteRefusal>(Seen { trns: true, ..seen }),
        is_gama(kind) && seen.gama is None && !seen.plte && !seen.srgb && de - ds == 4 && b[ds] < 128
            && !(b[ds] == 0 && b[ds + 1] == 0 && b[ds + 2] == 0 && b[ds + 3] == 0)
            ==> metadata_step(b, ds, de, kind, color, false, seen) is Ok,
        is_gama(kind) && de - ds == 4 && b[ds] == 0 && b[ds + 1] == 0 && b[ds + 2] == 0 && b[ds + 3] == 0
            ==> metadata_step(b, ds, de, kind, color, false, seen) is Err,
        is_srgb(kind) && !seen.srgb && !seen.plte && seen.gama is None && de - ds == 1 && b[ds] <= 3
            ==> metadata_step(b, ds, de, kind, color, false, seen) == Ok::<Seen, ByteRefusal>(Seen { srgb: true, ..seen }),
        is_srgb(kind) && de - ds == 1 && b[ds] > 3
            ==> metadata_step(b, ds, de, kind, color, false, seen) is Err,
{
    if is_gama(kind) && de - ds == 4 {
        let x0 = b[ds] as int;
        let x1 = b[ds + 1] as int;
        let x2 = b[ds + 2] as int;
        let x3 = b[ds + 3] as int;
        assert(be32(b, ds) == x0 * 16777216 + x1 * 65536 + x2 * 256 + x3);
        assert(0 <= x1 < 256 && 0 <= x2 < 256 && 0 <= x3 < 256 && 0 <= x0 < 256);
        assert(x0 < 128 ==> x0 * 16777216 + x1 * 65536 + x2 * 256 + x3 <= 0x7fff_ffff) by (nonlinear_arith)
            requires 0 <= x1 < 256, 0 <= x2 < 256, 0 <= x3 < 256, 0 <= x0;
        assert(!(x0 == 0 && x1 == 0 && x2 == 0 && x3 == 0) ==> x0 * 16777216 + x1 * 65536 + x2 * 256 + x3 >= 1) by (nonlinear_arith)
            requires 0 <= x1, 0 <= x2, 0 <= x3, 0 <= x0;
    }
}

} // verus!

