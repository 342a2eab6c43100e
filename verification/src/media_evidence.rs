//! The evidence of the built-in lossless-PNG review profile: one entry per
//! PNG observation, in path order, each identified by a digest of its
//! source's identity, with the coverage of the whole analysis.
//!
//! Identities are digests of canonical JSON texts that this module writes
//! itself: objects with their members in declaration order, `null` for an
//! absent value, enumerations by their snake-case names. A probed duration
//! enters a source identity as the decimal digits of its IEEE-754 bit
//! pattern.

use vstd::prelude::*;
use crate::configuration::policy::{path_json, PolicyDigest};
use crate::digest::{blake3_hex, blake3_hex_of};
use crate::domain::{
    EvidenceDigest, EvidenceValidity, FileObservation, MediaDescriptor, MediaKind, MediaProviderEvidence,
    MediaStream, NativePath, ObservationStability, PathText, path_less, lemma_path_order,
};
use crate::extensions::model::signed_decimal;
use crate::filesystem::FilesystemIdentity;
use crate::json::{
    decimal_digits, json_array, json_joined, json_member, json_object, json_string, lemma_joined_push,
    lemma_member_pushed, push_decimal, push_json_string, push_json_string_array, push_key, push_member_key, push_str,
};
use crate::duplicates::{by_path, lemma_sorted_members_in_range};
use crate::media_profile::{
    entry_limitations, entry_status, coverage_status, is_png_candidate, merged_from, merged_limitations,
    normalized_from, normalized_png_evidence, required_output_validations, spec_coverage_status,
    spec_entry_status, spec_limitations, spec_png_candidate, spec_required_output_validations,
    MediaProfileCoverageStatus, MediaProfileEntryStatus, MediaProfileLimitation, NormalizedPngEvidence,
    OutputValidationRequirement, LOSSLESS_PNG_PROFILE_ID, LOSSLESS_PNG_PROFILE_VERSION,
};
use crate::sorting::{
    lemma_ascending_paths_equal, lemma_sort_by_path_props, path_items_of, path_keyed, sort_by_path, spec_sort_by_path,
};
use crate::text::{chars_of, owned, string_of};

verus! {

/// The text `null`.
pub open spec fn json_null() -> Seq<char> {
    seq!['n', 'u', 'l', 'l']
}

/// An optional string: the string literal, or `null`.
pub open spec fn text_json(o: Option<String>) -> Seq<char> {
    match o {
        Some(s) => json_string(s@),
        None => json_null(),
    }
}

/// An optional count.
pub open spec fn count_json(o: Option<u64>) -> Seq<char> {
    match o {
        Some(n) => decimal_digits(n as nat),
        None => json_null(),
    }
}

/// An optional small count.
pub open spec fn small_json(o: Option<u32>) -> Seq<char> {
    match o {
        Some(n) => decimal_digits(n as nat),
        None => json_null(),
    }
}

/// An optional signed number.
pub open spec fn signed_json(o: Option<i64>) -> Seq<char> {
    match o {
        Some(n) => signed_decimal(n as int),
        None => json_null(),
    }
}

/// A digest record.
pub open spec fn digest_json(d: EvidenceDigest) -> Seq<char> {
    json_object(seq![
            json_member("algorithm"@, json_string(d.algorithm@)),
            json_member("value"@, json_string(d.value@)),
        ])
}

/// An optional filesystem identity.
pub open spec fn identity_json(o: Option<FilesystemIdentity>) -> Seq<char> {
    match o {
        Some(i) => json_object(seq![
            json_member("platform"@, json_string(i.platform@)),
            json_member("filesystem_id"@, json_string(i.filesystem_id@)),
            json_member("file_id"@, json_string(i.file_id@)),
            json_member("link_count"@, count_json(i.link_count)),
        ]),
        None => json_null(),
    }
}

/// One probed stream.
pub open spec fn stream_json(s: MediaStream) -> Seq<char> {
    json_object(seq![
            json_member("index"@, decimal_digits(s.index as nat)),
            json_member("codec_type"@, text_json(s.codec_type)),
            json_member("codec_name"@, text_json(s.codec_name)),
            json_member("width"@, small_json(s.width)),
            json_member("height"@, small_json(s.height)),
            json_member("sample_rate"@, small_json(s.sample_rate)),
            json_member("channels"@, small_json(s.channels)),
        ])
}

/// The streams of a descriptor, as JSON texts.
pub open spec fn streams_json(s: Seq<MediaStream>) -> Seq<Seq<char>> {
    s.map_values(|x: MediaStream| stream_json(x))
}

/// An optional media descriptor.
pub open spec fn media_json(o: Option<MediaDescriptor>) -> Seq<char> {
    match o {
        Some(m) => json_object(seq![
            json_member("format_name"@, text_json(m.format_name)),
            json_member("duration_seconds"@, count_json(m.duration_seconds_bits)),
            json_member("bit_rate"@, count_json(m.bit_rate)),
            json_member("streams"@, json_array(streams_json(m.streams@))),
        ]),
        None => json_null(),
    }
}

pub open spec fn kind_name(k: MediaKind) -> Seq<char> {
    match k {
        MediaKind::Image => "image"@,
        MediaKind::Video => "video"@,
        MediaKind::Audio => "audio"@,
        MediaKind::Other => "other"@,
        MediaKind::Unknown => "unknown"@,
    }
}

pub open spec fn stability_name(s: ObservationStability) -> Seq<char> {
    match s {
        ObservationStability::Stable => "stable"@,
        ObservationStability::ChangedDuringHash => "changed_during_hash"@,
        ObservationStability::ChangedDuringProbe => "changed_during_probe"@,
        ObservationStability::ReplacedDuringScan => "replaced_during_scan"@,
        ObservationStability::DisappearedDuringScan => "disappeared_during_scan"@,
        ObservationStability::BecameSymlink => "became_symlink"@,
        ObservationStability::FilesystemBoundaryChanged => "filesystem_boundary_changed"@,
        ObservationStability::MetadataUnavailable => "metadata_unavailable"@,
        ObservationStability::RetryExhausted => "retry_exhausted"@,
        ObservationStability::Unreadable => "unreadable"@,
    }
}

pub open spec fn validity_name(v: EvidenceValidity) -> Seq<char> {
    match v {
        EvidenceValidity::Current => "current"@,
        EvidenceValidity::Stale => "stale"@,
        EvidenceValidity::Unavailable => "unavailable"@,
    }
}

/// An optional media provider.
pub open spec fn provider_json(o: Option<MediaProviderEvidence>) -> Seq<char> {
    match o {
        Some(p) => json_object(seq![
            json_member("name"@, json_string(p.name@)),
            json_member("version"@, json_string(p.version@)),
            json_member("executable"@, path_json(p.executable@)),
            json_member("binary_digest"@, digest_json(p.binary_digest)),
            json_member("invocation_fingerprint"@, digest_json(p.invocation_fingerprint)),
        ]),
        None => json_null(),
    }
}

/// The identity of one source as the profile sees it: the profile and
/// policy fingerprints, and what was observed of the file and by whom.
pub open spec fn source_identity_json(
    configuration: EvidenceDigest,
    policy: EvidenceDigest,
    o: FileObservation,
    provider: Option<MediaProviderEvidence>,
) -> Seq<char> {
    json_object(seq![
            json_member("profile_configuration_fingerprint"@, digest_json(configuration)),
            json_member("evidence_policy_fingerprint"@, digest_json(policy)),
            json_member("path"@, path_json(o.path@)),
            json_member("size_bytes"@, decimal_digits(o.size_bytes as nat)),
            json_member("modified_unix_ns"@, signed_json(o.modified_unix_ns)),
            json_member("filesystem_identity"@, identity_json(o.filesystem_identity)),
            json_member("content_type"@, text_json(o.content_type)),
            json_member("media_kind"@, json_string(kind_name(o.media_kind))),
            json_member("media"@, media_json(o.media)),
            json_member("observation_stability"@, json_string(stability_name(o.observation_stability))),
            json_member("evidence_validity"@, json_string(validity_name(o.evidence_validity))),
            json_member("provider"@, provider_json(provider)),
        ])
}

/// Whether `d` is the BLAKE3 digest record of the UTF-8 bytes of `text`.
pub open spec fn digest_of_text(d: EvidenceDigest, text: Seq<char>) -> bool {
    d.algorithm@ == "blake3-256"@ && d.value@ == blake3_hex(vstd::utf8::encode_utf8(text))
}

/// The identifier `<prefix>-` and the first 32 hex digits of the digest of
/// `text`.
pub open spec fn prefixed_id(prefix: Seq<char>, text: Seq<char>) -> Seq<char> {
    prefix + seq!['-'] + blake3_hex(vstd::utf8::encode_utf8(text)).take(32)
}

fn push_null(out: &mut Vec<char>)
    ensures
        final(out)@ == old(out)@ + json_null(),
{
    out.push('n');
    out.push('u');
    out.push('l');
    out.push('l');
}

fn push_text_option(out: &mut Vec<char>, o: &Option<String>)
    ensures
        final(out)@ == old(out)@ + text_json(*o),
{
    match o {
        Some(s) => push_json_string(out, s.as_str()),
        None => push_null(out),
    }
}

fn push_count_option(out: &mut Vec<char>, o: Option<u64>)
    ensures
        final(out)@ == old(out)@ + count_json(o),
{
    match o {
        Some(n) => push_decimal(out, n),
        None => push_null(out),
    }
}

fn push_small_option(out: &mut Vec<char>, o: Option<u32>)
    ensures
        final(out)@ == old(out)@ + small_json(o),
{
    match o {
        Some(n) => push_decimal(out, n as u64),
        None => push_null(out),
    }
}

fn push_signed_option(out: &mut Vec<char>, o: Option<i64>)
    ensures
        final(out)@ == old(out)@ + signed_json(o),
{
    match o {
        Some(n) => {
            if n < 0 {
                out.push('-');
                let magnitude: u64 = if n == i64::MIN { 9223372036854775808u64 } else { (0 - n) as u64 };
                push_decimal(out, magnitude);
            } else {
                push_decimal(out, n as u64);
            }
        },
        None => push_null(out),
    }
}

fn push_member(out: &mut Vec<char>, key: &str)
    ensures
        final(out)@ == old(out)@ + json_string(key@) + seq![':'],
{
    push_key(out, key);
}

pub(crate) fn push_digest_json(out: &mut Vec<char>, d: &EvidenceDigest)
    ensures
        final(out)@ == old(out)@ + digest_json(*d),
{
    let ghost start = out@;
    out.push('{');
    let ghost mut done: Seq<Seq<char>> = seq![];
    assert(out@ =~= start + seq!['{'] + json_joined(done));
    push_member_key(out, "algorithm", true, Ghost(start), Ghost(done));
    push_json_string(out, d.algorithm.as_str());
    proof { lemma_member_pushed(start, done, "algorithm"@, json_string(d.algorithm@), out@); done = done.push(json_member("algorithm"@, json_string(d.algorithm@))); }
    push_member_key(out, "value", false, Ghost(start), Ghost(done));
    push_json_string(out, d.value.as_str());
    proof { lemma_member_pushed(start, done, "value"@, json_string(d.value@), out@); done = done.push(json_member("value"@, json_string(d.value@))); }
    out.push('}');
    assert(done =~= seq![json_member("algorithm"@, json_string(d.algorithm@)), json_member("value"@, json_string(d.value@))]);
    assert(out@ =~= start + digest_json(*d));
}

pub(crate) fn push_identity_object(out: &mut Vec<char>, id: &FilesystemIdentity)
    ensures
        final(out)@ == old(out)@ + identity_json(Some(*id)),
{
    let ghost start = out@;
    out.push('{');
    let ghost mut done: Seq<Seq<char>> = seq![];
    assert(out@ =~= start + seq!['{'] + json_joined(done));
    push_member_key(out, "platform", true, Ghost(start), Ghost(done));
    push_json_string(out, id.platform.as_str());
    proof { lemma_member_pushed(start, done, "platform"@, json_string(id.platform@), out@); done = done.push(json_member("platform"@, json_string(id.platform@))); }
    push_member_key(out, "filesystem_id", false, Ghost(start), Ghost(done));
    push_json_string(out, id.filesystem_id.as_str());
    proof { lemma_member_pushed(start, done, "filesystem_id"@, json_string(id.filesystem_id@), out@); done = done.push(json_member("filesystem_id"@, json_string(id.filesystem_id@))); }
    push_member_key(out, "file_id", false, Ghost(start), Ghost(done));
    push_json_string(out, id.file_id.as_str());
    proof { lemma_member_pushed(start, done, "file_id"@, json_string(id.file_id@), out@); done = done.push(json_member("file_id"@, json_string(id.file_id@))); }
    push_member_key(out, "link_count", false, Ghost(start), Ghost(done));
    push_count_option(out, id.link_count);
    proof { lemma_member_pushed(start, done, "link_count"@, count_json(id.link_count), out@); done = done.push(json_member("link_count"@, count_json(id.link_count))); }
    out.push('}');
    assert(done =~= seq![json_member("platform"@, json_string(id.platform@)), json_member("filesystem_id"@, json_string(id.filesystem_id@)), json_member("file_id"@, json_string(id.file_id@)), json_member("link_count"@, count_json(id.link_count))]);
    assert(out@ =~= start + identity_json(Some(*id)));
}

fn push_identity_json(out: &mut Vec<char>, i: &Option<FilesystemIdentity>)
    ensures
        final(out)@ == old(out)@ + identity_json(*i),
{
    match i {
        Some(id) => push_identity_object(out, id),
        None => push_null(out),
    }
}

fn push_stream_json(out: &mut Vec<char>, s: &MediaStream)
    ensures
        final(out)@ == old(out)@ + stream_json(*s),
{
    let ghost start = out@;
    out.push('{');
    let ghost mut done: Seq<Seq<char>> = seq![];
    assert(out@ =~= start + seq!['{'] + json_joined(done));
    push_member_key(out, "index", true, Ghost(start), Ghost(done));
    push_decimal(out, s.index as u64);
    proof { lemma_member_pushed(start, done, "index"@, decimal_digits(s.index as nat), out@); done = done.push(json_member("index"@, decimal_digits(s.index as nat))); }
    push_member_key(out, "codec_type", false, Ghost(start), Ghost(done));
    push_text_option(out, &s.codec_type);
    proof { lemma_member_pushed(start, done, "codec_type"@, text_json(s.codec_type), out@); done = done.push(json_member("codec_type"@, text_json(s.codec_type))); }
    push_member_key(out, "codec_name", false, Ghost(start), Ghost(done));
    push_text_option(out, &s.codec_name);
    proof { lemma_member_pushed(start, done, "codec_name"@, text_json(s.codec_name), out@); done = done.push(json_member("codec_name"@, text_json(s.codec_name))); }
    push_member_key(out, "width", false, Ghost(start), Ghost(done));
    push_small_option(out, s.width);
    proof { lemma_member_pushed(start, done, "width"@, small_json(s.width), out@); done = done.push(json_member("width"@, small_json(s.width))); }
    push_member_key(out, "height", false, Ghost(start), Ghost(done));
    push_small_option(out, s.height);
    proof { lemma_member_pushed(start, done, "height"@, small_json(s.height), out@); done = done.push(json_member("height"@, small_json(s.height))); }
    push_member_key(out, "sample_rate", false, Ghost(start), Ghost(done));
    push_small_option(out, s.sample_rate);
    proof { lemma_member_pushed(start, done, "sample_rate"@, small_json(s.sample_rate), out@); done = done.push(json_member("sample_rate"@, small_json(s.sample_rate))); }
    push_member_key(out, "channels", false, Ghost(start), Ghost(done));
    push_small_option(out, s.channels);
    proof { lemma_member_pushed(start, done, "channels"@, small_json(s.channels), out@); done = done.push(json_member("channels"@, small_json(s.channels))); }
    out.push('}');
    assert(done =~= seq![json_member("index"@, decimal_digits(s.index as nat)), json_member("codec_type"@, text_json(s.codec_type)), json_member("codec_name"@, text_json(s.codec_name)), json_member("width"@, small_json(s.width)), json_member("height"@, small_json(s.height)), json_member("sample_rate"@, small_json(s.sample_rate)), json_member("channels"@, small_json(s.channels))]);
    assert(out@ =~= start + stream_json(*s));
}

fn push_streams_json(out: &mut Vec<char>, streams: &Vec<MediaStream>)
    ensures
        final(out)@ == old(out)@ + json_array(streams_json(streams@)),
{
    let ghost elems = streams_json(streams@);
    let ghost start = out@;
    out.push('[');
    let mut i: usize = 0;
    while i < streams.len()
        invariant
            i <= streams@.len(),
            elems == streams_json(streams@),
            out@ == start + seq!['['] + json_joined(elems.take(i as int)),
        decreases streams@.len() - i,
    {
        proof {
            lemma_joined_push(elems.take(i as int), elems[i as int]);
            assert(elems.take(i + 1) =~= elems.take(i as int).push(elems[i as int]));
        }
        if i > 0 {
            out.push(',');
        }
        push_stream_json(out, &streams[i]);
        i = i + 1;
    }
    assert(elems.take(streams@.len() as int) =~= elems);
    out.push(']');
}

fn push_media_json(out: &mut Vec<char>, m: &Option<MediaDescriptor>)
    ensures
        final(out)@ == old(out)@ + media_json(*m),
{
    match m {
        Some(d) => {
            let ghost start = out@;
            out.push('{');
            let ghost mut done: Seq<Seq<char>> = seq![];
            assert(out@ =~= start + seq!['{'] + json_joined(done));
            push_member_key(out, "format_name", true, Ghost(start), Ghost(done));
            push_text_option(out, &d.format_name);
            proof { lemma_member_pushed(start, done, "format_name"@, text_json(d.format_name), out@); done = done.push(json_member("format_name"@, text_json(d.format_name))); }
            push_member_key(out, "duration_seconds", false, Ghost(start), Ghost(done));
            push_count_option(out, d.duration_seconds_bits);
            proof { lemma_member_pushed(start, done, "duration_seconds"@, count_json(d.duration_seconds_bits), out@); done = done.push(json_member("duration_seconds"@, count_json(d.duration_seconds_bits))); }
            push_member_key(out, "bit_rate", false, Ghost(start), Ghost(done));
            push_count_option(out, d.bit_rate);
            proof { lemma_member_pushed(start, done, "bit_rate"@, count_json(d.bit_rate), out@); done = done.push(json_member("bit_rate"@, count_json(d.bit_rate))); }
            push_member_key(out, "streams", false, Ghost(start), Ghost(done));
            push_streams_json(out, &d.streams);
            proof { lemma_member_pushed(start, done, "streams"@, json_array(streams_json(d.streams@)), out@); done = done.push(json_member("streams"@, json_array(streams_json(d.streams@)))); }
            out.push('}');
            assert(done =~= seq![json_member("format_name"@, text_json(d.format_name)), json_member("duration_seconds"@, count_json(d.duration_seconds_bits)), json_member("bit_rate"@, count_json(d.bit_rate)), json_member("streams"@, json_array(streams_json(d.streams@)))]);
            assert(out@ =~= start + media_json(*m));
        },
        None => push_null(out),
    }
}

fn push_kind_name(out: &mut Vec<char>, k: MediaKind)
    ensures
        final(out)@ == old(out)@ + json_string(kind_name(k)),
{
    match k {
        MediaKind::Image => push_json_string(out, "image"),
        MediaKind::Video => push_json_string(out, "video"),
        MediaKind::Audio => push_json_string(out, "audio"),
        MediaKind::Other => push_json_string(out, "other"),
        MediaKind::Unknown => push_json_string(out, "unknown"),
    }
}

fn push_stability_name(out: &mut Vec<char>, s: ObservationStability)
    ensures
        final(out)@ == old(out)@ + json_string(stability_name(s)),
{
    match s {
        ObservationStability::Stable => push_json_string(out, "stable"),
        ObservationStability::ChangedDuringHash => push_json_string(out, "changed_during_hash"),
        ObservationStability::ChangedDuringProbe => push_json_string(out, "changed_during_probe"),
        ObservationStability::ReplacedDuringScan => push_json_string(out, "replaced_during_scan"),
        ObservationStability::DisappearedDuringScan => push_json_string(out, "disappeared_during_scan"),
        ObservationStability::BecameSymlink => push_json_string(out, "became_symlink"),
        ObservationStability::FilesystemBoundaryChanged => push_json_string(out, "filesystem_boundary_changed"),
        ObservationStability::MetadataUnavailable => push_json_string(out, "metadata_unavailable"),
        ObservationStability::RetryExhausted => push_json_string(out, "retry_exhausted"),
        ObservationStability::Unreadable => push_json_string(out, "unreadable"),
    }
}

fn push_validity_name(out: &mut Vec<char>, v: EvidenceValidity)
    ensures
        final(out)@ == old(out)@ + json_string(validity_name(v)),
{
    match v {
        EvidenceValidity::Current => push_json_string(out, "current"),
        EvidenceValidity::Stale => push_json_string(out, "stale"),
        EvidenceValidity::Unavailable => push_json_string(out, "unavailable"),
    }
}

pub(crate) fn push_path(out: &mut Vec<char>, p: &NativePath)
    ensures
        final(out)@ == old(out)@ + path_json(p@),
{
    let ghost o = out@;
    match p {
        NativePath::Utf8 { value } => {
            out.push('{');
            push_member(out, "encoding");
            push_json_string(out, "utf8");
            out.push(',');
            push_member(out, "value");
            push_json_string(out, value.as_str());
            out.push('}');
        },
        NativePath::UnixBytes { base64 } => {
            out.push('{');
            push_member(out, "encoding");
            push_json_string(out, "unix_bytes");
            out.push(',');
            push_member(out, "base64");
            push_json_string(out, base64.as_str());
            out.push('}');
        },
    }
    assert(out@ =~= o + path_json(p@));
}

pub(crate) fn push_provider_object(out: &mut Vec<char>, e: &MediaProviderEvidence)
    ensures
        final(out)@ == old(out)@ + provider_json(Some(*e)),
{
    let ghost start = out@;
    out.push('{');
    let ghost mut done: Seq<Seq<char>> = seq![];
    assert(out@ =~= start + seq!['{'] + json_joined(done));
    push_member_key(out, "name", true, Ghost(start), Ghost(done));
    push_json_string(out, e.name.as_str());
    proof { lemma_member_pushed(start, done, "name"@, json_string(e.name@), out@); done = done.push(json_member("name"@, json_string(e.name@))); }
    push_member_key(out, "version", false, Ghost(start), Ghost(done));
    push_json_string(out, e.version.as_str());
    proof { lemma_member_pushed(start, done, "version"@, json_string(e.version@), out@); done = done.push(json_member("version"@, json_string(e.version@))); }
    push_member_key(out, "executable", false, Ghost(start), Ghost(done));
    push_path(out, &e.executable);
    proof { lemma_member_pushed(start, done, "executable"@, path_json(e.executable@), out@); done = done.push(json_member("executable"@, path_json(e.executable@))); }
    push_member_key(out, "binary_digest", false, Ghost(start), Ghost(done));
    push_digest_json(out, &e.binary_digest);
    proof { lemma_member_pushed(start, done, "binary_digest"@, digest_json(e.binary_digest), out@); done = done.push(json_member("binary_digest"@, digest_json(e.binary_digest))); }
    push_member_key(out, "invocation_fingerprint", false, Ghost(start), Ghost(done));
    push_digest_json(out, &e.invocation_fingerprint);
    proof { lemma_member_pushed(start, done, "invocation_fingerprint"@, digest_json(e.invocation_fingerprint), out@); done = done.push(json_member("invocation_fingerprint"@, digest_json(e.invocation_fingerprint))); }
    out.push('}');
    assert(done =~= seq![json_member("name"@, json_string(e.name@)), json_member("version"@, json_string(e.version@)), json_member("executable"@, path_json(e.executable@)), json_member("binary_digest"@, digest_json(e.binary_digest)), json_member("invocation_fingerprint"@, digest_json(e.invocation_fingerprint))]);
    assert(out@ =~= start + provider_json(Some(*e)));
}

fn push_provider_json(out: &mut Vec<char>, p: &Option<MediaProviderEvidence>)
    ensures
        final(out)@ == old(out)@ + provider_json(*p),
{
    match p {
        Some(e) => push_provider_object(out, e),
        None => push_null(out),
    }
}

fn source_identity_text(
    configuration: &EvidenceDigest,
    policy: &EvidenceDigest,
    o: &FileObservation,
    provider: &Option<MediaProviderEvidence>,
) -> (t: Vec<char>)
    ensures
        t@ == source_identity_json(*configuration, *policy, *o, *provider),
{
    let mut out: Vec<char> = Vec::new();
    let ghost start = out@;
    out.push('{');
    let ghost mut done: Seq<Seq<char>> = seq![];
    assert(out@ =~= start + seq!['{'] + json_joined(done));
    push_member_key(&mut out, "profile_configuration_fingerprint", true, Ghost(start), Ghost(done));
    push_digest_json(&mut out, configuration);
    proof { lemma_member_pushed(start, done, "profile_configuration_fingerprint"@, digest_json(*configuration), out@); done = done.push(json_member("profile_configuration_fingerprint"@, digest_json(*configuration))); }
    push_member_key(&mut out, "evidence_policy_fingerprint", false, Ghost(start), Ghost(done));
    push_digest_json(&mut out, policy);
    proof { lemma_member_pushed(start, done, "evidence_policy_fingerprint"@, digest_json(*policy), out@); done = done.push(json_member("evidence_policy_fingerprint"@, digest_json(*policy))); }
    push_member_key(&mut out, "path", false, Ghost(start), Ghost(done));
    push_path(&mut out, &o.path);
    proof { lemma_member_pushed(start, done, "path"@, path_json(o.path@), out@); done = done.push(json_member("path"@, path_json(o.path@))); }
    push_member_key(&mut out, "size_bytes", false, Ghost(start), Ghost(done));
    push_decimal(&mut out, o.size_bytes);
    proof { lemma_member_pushed(start, done, "size_bytes"@, decimal_digits(o.size_bytes as nat), out@); done = done.push(json_member("size_bytes"@, decimal_digits(o.size_bytes as nat))); }
    push_member_key(&mut out, "modified_unix_ns", false, Ghost(start), Ghost(done));
    push_signed_option(&mut out, o.modified_unix_ns);
    proof { lemma_member_pushed(start, done, "modified_unix_ns"@, signed_json(o.modified_unix_ns), out@); done = done.push(json_member("modified_unix_ns"@, signed_json(o.modified_unix_ns))); }
    push_member_key(&mut out, "filesystem_identity", false, Ghost(start), Ghost(done));
    push_identity_json(&mut out, &o.filesystem_identity);
    proof { lemma_member_pushed(start, done, "filesystem_identity"@, identity_json(o.filesystem_identity), out@); done = done.push(json_member("filesystem_identity"@, identity_json(o.filesystem_identity))); }
    push_member_key(&mut out, "content_type", false, Ghost(start), Ghost(done));
    push_text_option(&mut out, &o.content_type);
    proof { lemma_member_pushed(start, done, "content_type"@, text_json(o.content_type), out@); done = done.push(json_member("content_type"@, text_json(o.content_type))); }
    push_member_key(&mut out, "media_kind", false, Ghost(start), Ghost(done));
    push_kind_name(&mut out, o.media_kind);
    proof { lemma_member_pushed(start, done, "media_kind"@, json_string(kind_name(o.media_kind)), out@); done = done.push(json_member("media_kind"@, json_string(kind_name(o.media_kind)))); }
    push_member_key(&mut out, "media", false, Ghost(start), Ghost(done));
    push_media_json(&mut out, &o.media);
    proof { lemma_member_pushed(start, done, "media"@, media_json(o.media), out@); done = done.push(json_member("media"@, media_json(o.media))); }
    push_member_key(&mut out, "observation_stability", false, Ghost(start), Ghost(done));
    push_stability_name(&mut out, o.observation_stability);
    proof { lemma_member_pushed(start, done, "observation_stability"@, json_string(stability_name(o.observation_stability)), out@); done = done.push(json_member("observation_stability"@, json_string(stability_name(o.observation_stability)))); }
    push_member_key(&mut out, "evidence_validity", false, Ghost(start), Ghost(done));
    push_validity_name(&mut out, o.evidence_validity);
    proof { lemma_member_pushed(start, done, "evidence_validity"@, json_string(validity_name(o.evidence_validity)), out@); done = done.push(json_member("evidence_validity"@, json_string(validity_name(o.evidence_validity)))); }
    push_member_key(&mut out, "provider", false, Ghost(start), Ghost(done));
    push_provider_json(&mut out, provider);
    proof { lemma_member_pushed(start, done, "provider"@, provider_json(*provider), out@); done = done.push(json_member("provider"@, provider_json(*provider))); }
    out.push('}');
    assert(done =~= seq![json_member("profile_configuration_fingerprint"@, digest_json(*configuration)), json_member("evidence_policy_fingerprint"@, digest_json(*policy)), json_member("path"@, path_json(o.path@)), json_member("size_bytes"@, decimal_digits(o.size_bytes as nat)), json_member("modified_unix_ns"@, signed_json(o.modified_unix_ns)), json_member("filesystem_identity"@, identity_json(o.filesystem_identity)), json_member("content_type"@, text_json(o.content_type)), json_member("media_kind"@, json_string(kind_name(o.media_kind))), json_member("media"@, media_json(o.media)), json_member("observation_stability"@, json_string(stability_name(o.observation_stability))), json_member("evidence_validity"@, json_string(validity_name(o.evidence_validity))), json_member("provider"@, provider_json(*provider))]);
    assert(out@ =~= start + source_identity_json(*configuration, *policy, *o, *provider));
    out
}

/// The digest record of a canonical text.
fn digest_of(text: &Vec<char>) -> (d: EvidenceDigest)
    ensures
        digest_of_text(d, text@),
        d.value@.len() == 64,
{
    let s = string_of(text);
    EvidenceDigest { algorithm: owned("blake3-256"), value: blake3_hex_of(s.as_str().as_bytes()) }
}

/// `<prefix>-` and the first 32 digits of the digest of `text`.
fn id_of(prefix: &str, text: &Vec<char>) -> (id: String)
    ensures
        id@ == prefixed_id(prefix@, text@),
{
    let d = digest_of(text);
    let digits = chars_of(d.value.as_str());
    let mut out: Vec<char> = Vec::new();
    push_str(&mut out, prefix);
    out.push('-');
    let ghost head = out@;
    let mut i: usize = 0;
    while i < 32
        invariant
            digits@.len() == 64,
            i <= 32,
            out@ == head + digits@.take(i as int),
        decreases 32 - i,
    {
        out.push(digits[i]);
        i = i + 1;
        assert(digits@.take(i as int) =~= digits@.take(i - 1).push(digits@[i - 1]));
    }
    string_of(&out)
}


pub const MEDIA_PROFILE_EVIDENCE_SCHEMA: &'static str = "optiflow.media-profile-evidence.v1";
pub const LOSSLESS_PNG_INTENT: &'static str = "lossless_recompression_review";
pub const LOSSLESS_PNG_OPERATION: &'static str = "evaluate_lossless_png_recompression";
pub const REVIEW_CLASSIFICATION: &'static str = "review_candidate";
pub const OPPORTUNITY_REASON: &'static str = "content and stream evidence identify a current PNG input for later lossless-recompression evaluation; no candidate output or savings estimate exists";

/// The canonical text of the profile's configuration, whose digest is the
/// profile's configuration fingerprint.
pub const PROFILE_CONFIGURATION_JSON: &'static str = "{\"id\":\"optiflow.builtin.lossless-png-review\",\"version\":\"1.0.0\",\"content_type\":\"image/png\",\"intent\":\"lossless_recompression_review\",\"proposed_operation\":\"evaluate_lossless_png_recompression\",\"required_output_validations\":[\"source_observation_revalidated\",\"output_exists\",\"output_is_regular_file\",\"output_content_type_png\",\"complete_decode\",\"dimensions_preserved\",\"frame_count_preserved\",\"alpha_preserved\",\"color_profile_policy_satisfied\",\"metadata_policy_satisfied\",\"decoded_pixel_equivalence\",\"output_smaller_than_source\"],\"source_mutation\":false,\"outputs_produced\":false,\"savings_claim\":\"not_estimated\"}";

/// What an opportunity claims of savings.
#[derive(Debug, Clone, Copy, PartialEq, Eq, Structural)]
pub enum SavingsClaim {
    NotEstimated,
}

/// What the profile guarantees of every analysis.
#[derive(Debug, Clone, Copy, PartialEq, Eq, Structural)]
pub struct MediaProfileGuarantees {
    pub source_mutation: bool,
    pub outputs_produced: bool,
    pub savings_estimate: SavingsClaim,
}

/// The profile an analysis was made with.
#[derive(Debug, Clone)]
pub struct MediaProfileDefinition {
    pub id: String,
    pub version: String,
    pub media_kind: MediaKind,
    pub intent: String,
    pub configuration_fingerprint: EvidenceDigest,
    pub guarantees: MediaProfileGuarantees,
}

/// The source of one entry and the fingerprint of its identity.
#[derive(Debug, Clone)]
pub struct MediaProfileSource {
    pub observation_id: String,
    pub path: NativePath,
    pub size_bytes: u64,
    pub modified_unix_ns: Option<i64>,
    pub fingerprint: EvidenceDigest,
}

/// A source worth a later lossless-recompression review; neither an output
/// nor a savings estimate.
#[derive(Debug, Clone)]
pub struct MediaOptimizationOpportunity {
    pub opportunity_id: String,
    pub classification: String,
    pub proposed_operation: String,
    pub source_logical_bytes: u64,
    pub estimated_output_bytes: Option<u64>,
    pub estimated_logical_savings_bytes: Option<u64>,
    pub savings_claim: SavingsClaim,
    pub reason: String,
    pub required_output_validations: Vec<OutputValidationRequirement>,
}

/// One PNG source of an analysis.
#[derive(Debug, Clone)]
pub struct MediaProfileEntry {
    pub entry_id: String,
    pub source: MediaProfileSource,
    pub provider: Option<MediaProviderEvidence>,
    pub status: MediaProfileEntryStatus,
    pub limitations: Vec<MediaProfileLimitation>,
    pub observations: NormalizedPngEvidence,
    pub opportunity: Option<MediaOptimizationOpportunity>,
}

/// How much of the candidate media an analysis covers.
#[derive(Debug, Clone)]
pub struct MediaProfileCoverage {
    pub status: MediaProfileCoverageStatus,
    pub candidate_media_count: u64,
    pub complete_evidence_count: u64,
    pub limited_evidence_count: u64,
    pub opportunity_count: u64,
    pub limitations: Vec<MediaProfileLimitation>,
}

/// The evidence of one analysis with the lossless-PNG review profile.
#[derive(Debug, Clone)]
pub struct MediaProfileEvidence {
    pub schema: String,
    pub analysis_id: String,
    pub source_run_id: String,
    pub profile: MediaProfileDefinition,
    pub evidence_policy_fingerprint: EvidenceDigest,
    pub coverage: MediaProfileCoverage,
    pub entries: Vec<MediaProfileEntry>,
}

/// The opportunity of a current, fully evidenced source.
pub open spec fn opportunity_matches(op: MediaOptimizationOpportunity, o: FileObservation, f: EvidenceDigest) -> bool {
    &&& op.opportunity_id@ == "opo-"@ + f.value@.take(32)
    &&& op.classification@ == REVIEW_CLASSIFICATION@
    &&& op.proposed_operation@ == LOSSLESS_PNG_OPERATION@
    &&& op.source_logical_bytes == o.size_bytes
    &&& op.estimated_output_bytes is None
    &&& op.estimated_logical_savings_bytes is None
    &&& op.savings_claim == SavingsClaim::NotEstimated
    &&& op.reason@ == OPPORTUNITY_REASON@
    &&& op.required_output_validations@ == spec_required_output_validations()
}

/// The entry of observation `o`: its fingerprint is the digest of the
/// source's identity and its id the digest of that fingerprint; its
/// limitations, status and facts are the profile's; only an opportunity
/// entry carries an opportunity.
pub open spec fn entry_matches(
    e: MediaProfileEntry,
    o: FileObservation,
    probe_media: bool,
    provider: Option<MediaProviderEvidence>,
    configuration: EvidenceDigest,
    policy: EvidenceDigest,
) -> bool {
    let f = e.source.fingerprint;
    let limitations = spec_limitations(o, probe_media, provider is Some);
    &&& digest_of_text(f, source_identity_json(configuration, policy, o, provider))
    &&& e.entry_id@ == prefixed_id("mpe"@, digest_json(f))
    &&& e.source.observation_id@ == o.observation_id@
    &&& e.source.path@ == o.path@
    &&& e.source.size_bytes == o.size_bytes
    &&& e.source.modified_unix_ns == o.modified_unix_ns
    &&& e.provider == provider
    &&& e.limitations@ == limitations
    &&& e.status == spec_entry_status(limitations)
    &&& normalized_from(e.observations, o)
    &&& if e.status == MediaProfileEntryStatus::Opportunity {
        e.opportunity matches Some(op) && opportunity_matches(op, o, f)
    } else {
        e.opportunity is None
    }
}

fn copy_digest(d: &EvidenceDigest) -> (c: EvidenceDigest)
    ensures
        c == *d,
{
    EvidenceDigest { algorithm: d.algorithm.clone(), value: d.value.clone() }
}

/// The provider a reference stands for.
pub open spec fn provider_value(p: Option<&MediaProviderEvidence>) -> Option<MediaProviderEvidence> {
    match p {
        Some(q) => Some(*q),
        None => None,
    }
}

fn copy_provider(p: Option<&MediaProviderEvidence>) -> (c: Option<MediaProviderEvidence>)
    ensures
        c == provider_value(p),
{
    match p {
        Some(q) => Some(MediaProviderEvidence {
            name: q.name.clone(),
            version: q.version.clone(),
            executable: q.executable.copy(),
            binary_digest: copy_digest(&q.binary_digest),
            invocation_fingerprint: copy_digest(&q.invocation_fingerprint),
        }),
        None => None,
    }
}

fn opportunity_id(f: &EvidenceDigest) -> (id: String)
    requires
        f.value@.len() == 64,
    ensures
        id@ == "opo-"@ + f.value@.take(32),
{
    let digits = chars_of(f.value.as_str());
    let mut out: Vec<char> = Vec::new();
    push_str(&mut out, "opo-");
    let ghost head = out@;
    let mut i: usize = 0;
    while i < 32
        invariant
            digits@ == f.value@,
            digits@.len() == 64,
            i <= 32,
            out@ == head + digits@.take(i as int),
        decreases 32 - i,
    {
        out.push(digits[i]);
        i = i + 1;
        assert(digits@.take(i as int) =~= digits@.take(i - 1).push(digits@[i - 1]));
    }
    string_of(&out)
}

/// Builds the entry of one PNG observation.
pub fn build_entry(
    o: &FileObservation,
    probe_media: bool,
    provider: Option<&MediaProviderEvidence>,
    configuration: &EvidenceDigest,
    policy: &EvidenceDigest,
) -> (e: MediaProfileEntry)
    ensures
        entry_matches(e, *o, probe_media, provider_value(provider), *configuration, *policy),
        e.limitations@ == spec_limitations(*o, probe_media, provider is Some),
{
    reveal(entry_matches);
    let owned_provider = copy_provider(provider);
    let text = source_identity_text(configuration, policy, o, &owned_provider);
    let fingerprint = digest_of(&text);
    let mut fingerprint_text: Vec<char> = Vec::new();
    push_digest_json(&mut fingerprint_text, &fingerprint);
    let entry_id = id_of("mpe", &fingerprint_text);
    let limitations = entry_limitations(o, probe_media, provider.is_some());
    let status = entry_status(&limitations);
    let opportunity = if status == MediaProfileEntryStatus::Opportunity {
        Some(MediaOptimizationOpportunity {
            opportunity_id: opportunity_id(&fingerprint),
            classification: owned(REVIEW_CLASSIFICATION),
            proposed_operation: owned(LOSSLESS_PNG_OPERATION),
            source_logical_bytes: o.size_bytes,
            estimated_output_bytes: None,
            estimated_logical_savings_bytes: None,
            savings_claim: SavingsClaim::NotEstimated,
            reason: owned(OPPORTUNITY_REASON),
            required_output_validations: required_output_validations(),
        })
    } else {
        None
    };
    MediaProfileEntry {
        entry_id,
        source: MediaProfileSource {
            observation_id: o.observation_id.clone(),
            path: o.path.copy(),
            size_bytes: o.size_bytes,
            modified_unix_ns: o.modified_unix_ns,
            fingerprint,
        },
        provider: owned_provider,
        status,
        limitations,
        observations: normalized_png_evidence(o),
        opportunity,
    }
}


/// The indices of the PNG candidates among the first `n` observations, in
/// input order.
pub open spec fn png_indices(obs: Seq<FileObservation>, n: int) -> Seq<usize>
    decreases n,
{
    if n <= 0 {
        seq![]
    } else {
        let rest = png_indices(obs, n - 1);
        if spec_png_candidate(obs[n - 1]) {
            rest.push((n - 1) as usize)
        } else {
            rest
        }
    }
}

/// The PNG candidates, ordered by path; ties keep their input order.
pub open spec fn png_order(obs: Seq<FileObservation>) -> Seq<usize> {
    path_items_of(spec_sort_by_path(by_path(obs, png_indices(obs, obs.len() as int))))
}

/// How many entries are opportunities.
pub open spec fn opportunities_in(entries: Seq<MediaProfileEntry>) -> int
    decreases entries.len(),
{
    if entries.len() == 0 {
        0
    } else {
        opportunities_in(entries.drop_last())
            + if entries.last().status == MediaProfileEntryStatus::Opportunity { 1int } else { 0int }
    }
}

pub open spec fn limitations_of(entries: Seq<MediaProfileEntry>) -> Seq<Seq<MediaProfileLimitation>> {
    entries.map_values(|e: MediaProfileEntry| e.limitations@)
}

pub open spec fn ids_of(entries: Seq<MediaProfileEntry>) -> Seq<Seq<char>> {
    entries.map_values(|e: MediaProfileEntry| e.entry_id@)
}

/// The canonical text whose digest identifies an analysis: the profile and
/// policy fingerprints and the entry ids in order.
pub open spec fn analysis_json(configuration: EvidenceDigest, policy: EvidenceDigest, ids: Seq<Seq<char>>) -> Seq<char> {
    json_object(seq![
        json_member("profile_configuration_fingerprint"@, digest_json(configuration)),
        json_member("evidence_policy_fingerprint"@, digest_json(policy)),
        json_member("entry_ids"@, json_array(ids.map_values(|i: Seq<char>| json_string(i)))),
    ])
}

proof fn lemma_views_push(entries: Seq<MediaProfileEntry>, e: MediaProfileEntry,
    lims: Seq<Vec<MediaProfileLimitation>>, l: Vec<MediaProfileLimitation>, ids: Seq<String>, id: String)
    requires
        lims.map_values(|v: Vec<MediaProfileLimitation>| v@) == limitations_of(entries),
        ids.map_values(|s: String| s@) == ids_of(entries),
        l@ == e.limitations@,
        id@ == e.entry_id@,
    ensures
        lims.push(l).map_values(|v: Vec<MediaProfileLimitation>| v@) == limitations_of(entries.push(e)),
        ids.push(id).map_values(|s: String| s@) == ids_of(entries.push(e)),
        opportunities_in(entries.push(e)) == opportunities_in(entries)
            + if e.status == MediaProfileEntryStatus::Opportunity { 1int } else { 0int },
{
    let a = lims.push(l).map_values(|v: Vec<MediaProfileLimitation>| v@);
    let b = limitations_of(entries.push(e));
    assert(lims.map_values(|v: Vec<MediaProfileLimitation>| v@).len() == limitations_of(entries).len());
    assert forall|j: int| 0 <= j < a.len() implies a[j] == b[j] by {
        if j < lims.len() {
            assert(lims.map_values(|v: Vec<MediaProfileLimitation>| v@)[j] == limitations_of(entries)[j]);
        }
    }
    assert(a =~= b);
    let c = ids.push(id).map_values(|s: String| s@);
    let d = ids_of(entries.push(e));
    assert(ids.map_values(|s: String| s@).len() == ids_of(entries).len());
    assert forall|j: int| 0 <= j < c.len() implies c[j] == d[j] by {
        if j < ids.len() {
            assert(ids.map_values(|s: String| s@)[j] == ids_of(entries)[j]);
        }
    }
    assert(c =~= d);
    assert(entries.push(e).drop_last() =~= entries);
}

fn png_candidate_indices(observations: &[FileObservation]) -> (r: Vec<usize>)
    ensures
        r@ == png_indices(observations@, observations@.len() as int),
        forall|q: int| 0 <= q < r@.len() ==> (#[trigger] r@[q]) < observations@.len(),
{
    let mut r: Vec<usize> = Vec::new();
    let mut i: usize = 0;
    while i < observations.len()
        invariant
            i <= observations@.len(),
            r@ == png_indices(observations@, i as int),
            forall|q: int| 0 <= q < r@.len() ==> (#[trigger] r@[q]) < i,
        decreases observations@.len() - i,
    {
        if is_png_candidate(&observations[i]) {
            r.push(i);
        }
        i = i + 1;
    }
    r
}

fn analysis_text(configuration: &EvidenceDigest, policy: &EvidenceDigest, ids: &Vec<String>) -> (t: Vec<char>)
    ensures
        t@ == analysis_json(*configuration, *policy, ids@.map_values(|s: String| s@)),
{
    let ghost views = ids@.map_values(|s: String| s@);
    let mut out: Vec<char> = Vec::new();
    let ghost start = out@;
    out.push('{');
    let ghost mut done: Seq<Seq<char>> = seq![];
    assert(out@ =~= start + seq!['{'] + json_joined(done));
    push_member_key(&mut out, "profile_configuration_fingerprint", true, Ghost(start), Ghost(done));
    push_digest_json(&mut out, configuration);
    proof {
        lemma_member_pushed(start, done, "profile_configuration_fingerprint"@, digest_json(*configuration), out@);
        done = done.push(json_member("profile_configuration_fingerprint"@, digest_json(*configuration)));
    }
    push_member_key(&mut out, "evidence_policy_fingerprint", false, Ghost(start), Ghost(done));
    push_digest_json(&mut out, policy);
    proof {
        lemma_member_pushed(start, done, "evidence_policy_fingerprint"@, digest_json(*policy), out@);
        done = done.push(json_member("evidence_policy_fingerprint"@, digest_json(*policy)));
    }
    push_member_key(&mut out, "entry_ids", false, Ghost(start), Ghost(done));
    push_json_string_array(&mut out, ids);
    assert(ids@.map_values(|s: String| json_string(s@)) =~= views.map_values(|i: Seq<char>| json_string(i)));
    proof {
        let v = json_array(views.map_values(|i: Seq<char>| json_string(i)));
        lemma_member_pushed(start, done, "entry_ids"@, v, out@);
        done = done.push(json_member("entry_ids"@, v));
    }
    out.push('}');
    assert(done =~= seq![
        json_member("profile_configuration_fingerprint"@, digest_json(*configuration)),
        json_member("evidence_policy_fingerprint"@, digest_json(*policy)),
        json_member("entry_ids"@, json_array(views.map_values(|i: Seq<char>| json_string(i)))),
    ]);
    assert(out@ =~= analysis_json(*configuration, *policy, views));
    out
}

fn configuration_fingerprint() -> (d: EvidenceDigest)
    ensures
        digest_of_text(d, PROFILE_CONFIGURATION_JSON@),
{
    let mut text: Vec<char> = Vec::new();
    push_str(&mut text, PROFILE_CONFIGURATION_JSON);
    digest_of(&text)
}

/// What the evidence of an analysis over `observations` holds: the profile,
/// the fingerprints, one entry per PNG candidate in path order, the
/// coverage, and the analysis id.
pub open spec fn evidence_of(
    r: MediaProfileEvidence,
    source_run_id: Seq<char>,
    observations: Seq<FileObservation>,
    probe_media: bool,
    provider: Option<MediaProviderEvidence>,
    policy_digest: PolicyDigest,
) -> bool {
    let configuration = r.profile.configuration_fingerprint;
    let policy = r.evidence_policy_fingerprint;
    let order = png_order(observations);
    let entries = r.entries@;
    let complete = opportunities_in(entries);
    &&& r.schema@ == MEDIA_PROFILE_EVIDENCE_SCHEMA@
    &&& r.source_run_id@ == source_run_id
    &&& r.profile.id@ == LOSSLESS_PNG_PROFILE_ID@
    &&& r.profile.version@ == LOSSLESS_PNG_PROFILE_VERSION@
    &&& r.profile.media_kind == MediaKind::Image
    &&& r.profile.intent@ == LOSSLESS_PNG_INTENT@
    &&& r.profile.guarantees == (MediaProfileGuarantees {
        source_mutation: false,
        outputs_produced: false,
        savings_estimate: SavingsClaim::NotEstimated,
    })
    &&& digest_of_text(configuration, PROFILE_CONFIGURATION_JSON@)
    &&& policy.algorithm@ == policy_digest.algorithm@
    &&& policy.value@ == policy_digest.value@
    &&& entries.len() == order.len()
    &&& forall|i: int| 0 <= i < entries.len() ==> entry_matches(
        #[trigger] entries[i],
        observations[order[i] as int],
        probe_media,
        provider,
        configuration,
        policy,
    )
    &&& r.coverage.candidate_media_count == entries.len()
    &&& r.coverage.complete_evidence_count == complete
    &&& r.coverage.limited_evidence_count == entries.len() - complete
    &&& r.coverage.opportunity_count == complete
    &&& r.coverage.limitations@ == merged_from(limitations_of(entries), 5)
    &&& r.coverage.status == spec_coverage_status(entries.len() as u64, complete as u64, probe_media)
    &&& r.analysis_id@ == prefixed_id("mpa"@, analysis_json(configuration, policy, ids_of(entries)))
}

/// The evidence of the lossless-PNG review profile over accepted
/// observations: one entry per observation detected as a PNG image, in path
/// order, and the coverage of the whole analysis. Its id is the digest of
/// the profile and policy fingerprints and the entry ids.
pub fn lossless_png_evidence(
    source_run_id: &str,
    observations: &[FileObservation],
    probe_media: bool,
    provider: Option<&MediaProviderEvidence>,
    evidence_policy_fingerprint: &PolicyDigest,
) -> (r: MediaProfileEvidence)
    ensures
        evidence_of(r, source_run_id@, observations@, probe_media, provider_value(provider), *evidence_policy_fingerprint),
{
    let configuration = configuration_fingerprint();
    let policy = EvidenceDigest {
        algorithm: evidence_policy_fingerprint.algorithm.clone(),
        value: evidence_policy_fingerprint.value.clone(),
    };
    let candidates = png_candidate_indices(observations);
    let ghost items = candidates@;
    let mut keys: Vec<NativePath> = Vec::new();
    let mut k: usize = 0;
    while k < candidates.len()
        invariant
            k <= candidates@.len(),
            items == candidates@,
            forall|q: int| 0 <= q < candidates@.len() ==> (#[trigger] candidates@[q]) < observations@.len(),
            keys@.len() == k,
            forall|q: int| 0 <= q < k ==> (#[trigger] keys@[q])@ == observations@[candidates@[q] as int].path@,
        decreases candidates@.len() - k,
    {
        keys.push(observations[candidates[k]].path.copy());
        k = k + 1;
    }
    assert(path_keyed(keys@, items) =~= by_path(observations@, items));
    let order = sort_by_path(candidates, keys);
    proof {
        lemma_sorted_members_in_range(observations@, items);
    }
    let ghost provided = provider_value(provider);
    let mut entries: Vec<MediaProfileEntry> = Vec::new();
    let mut all_limitations: Vec<Vec<MediaProfileLimitation>> = Vec::new();
    let mut ids: Vec<String> = Vec::new();
    let mut complete: u64 = 0;
    let mut i: usize = 0;
    while i < order.len()
        invariant
            i <= order@.len(),
            order@ == png_order(observations@),
            forall|q: int| 0 <= q < order@.len() ==> (#[trigger] order@[q]) < observations@.len(),
            provided == provider_value(provider),
            entries@.len() == i,
            forall|q: int| 0 <= q < i ==> entry_matches(
                #[trigger] entries@[q],
                observations@[order@[q] as int],
                probe_media,
                provided,
                configuration,
                policy,
            ),
            all_limitations@.map_values(|v: Vec<MediaProfileLimitation>| v@) == limitations_of(entries@),
            ids@.map_values(|s: String| s@) == ids_of(entries@),
            complete == opportunities_in(entries@),
            complete <= i,
        decreases order@.len() - i,
    {
        let o = &observations[order[i]];
        let entry = build_entry(o, probe_media, provider, &configuration, &policy);
        let limitations = entry_limitations(o, probe_media, provider.is_some());
        let id = entry.entry_id.clone();
        let opportunity = entry.status == MediaProfileEntryStatus::Opportunity;
        proof {
            lemma_views_push(entries@, entry, all_limitations@, limitations, ids@, id);
        }
        entries.push(entry);
        all_limitations.push(limitations);
        ids.push(id);
        if opportunity {
            complete = complete + 1;
        }
        i = i + 1;
    }
    let merged = merged_limitations(&all_limitations);
    let candidate_count = entries.len() as u64;
    let status = coverage_status(candidate_count, complete, probe_media);
    let text = analysis_text(&configuration, &policy, &ids);
    let analysis_id = id_of("mpa", &text);
    MediaProfileEvidence {
        schema: owned(MEDIA_PROFILE_EVIDENCE_SCHEMA),
        analysis_id,
        source_run_id: owned(source_run_id),
        profile: MediaProfileDefinition {
            id: owned(LOSSLESS_PNG_PROFILE_ID),
            version: owned(LOSSLESS_PNG_PROFILE_VERSION),
            media_kind: MediaKind::Image,
            intent: owned(LOSSLESS_PNG_INTENT),
            configuration_fingerprint: configuration,
            guarantees: MediaProfileGuarantees {
                source_mutation: false,
                outputs_produced: false,
                savings_estimate: SavingsClaim::NotEstimated,
            },
        },
        evidence_policy_fingerprint: policy,
        coverage: MediaProfileCoverage {
            status,
            candidate_media_count: candidate_count,
            complete_evidence_count: complete,
            limited_evidence_count: candidate_count - complete,
            opportunity_count: complete,
            limitations: merged,
        },
        entries,
    }
}


/// Whether `b` is `a` under another observation id.
pub open spec fn differs_only_in_id(a: FileObservation, b: FileObservation) -> bool {
    b == FileObservation { observation_id: b.observation_id, ..a }
}

/// Whether some position of `perm` holds `k`.
pub open spec fn is_image_of(perm: Seq<int>, k: int) -> bool {
    exists|i: int| 0 <= i < perm.len() && perm[i] == k
}

/// The source paths of the entries, in order.
pub open spec fn entry_paths(entries: Seq<MediaProfileEntry>) -> Seq<PathText> {
    entries.map_values(|e: MediaProfileEntry| e.source.path@)
}

proof fn lemma_png_indices(obs: Seq<FileObservation>, n: int)
    requires
        0 <= n <= obs.len(),
        obs.len() <= usize::MAX,
    ensures
        forall|q: int| 0 <= q < png_indices(obs, n).len() ==> (#[trigger] png_indices(obs, n)[q]) < n
            && spec_png_candidate(obs[png_indices(obs, n)[q] as int]),
        forall|k: int| 0 <= k < n && spec_png_candidate(#[trigger] obs[k]) ==> png_indices(obs, n).contains(k as usize),
        forall|q: int, r: int| 0 <= q < r < png_indices(obs, n).len() ==> #[trigger] png_indices(obs, n)[q] < #[trigger] png_indices(obs, n)[r],
    decreases n,
{
    if n > 0 {
        lemma_png_indices(obs, n - 1);
        let rest = png_indices(obs, n - 1);
        if spec_png_candidate(obs[n - 1]) {
            let c = rest.push((n - 1) as usize);
            assert(png_indices(obs, n) == c);
            assert forall|k: int| 0 <= k < n && spec_png_candidate(#[trigger] obs[k]) implies c.contains(k as usize) by {
                if k == n - 1 {
                    assert(c[rest.len() as int] == (n - 1) as usize);
                } else {
                    assert(rest.contains(k as usize));
                    let q = choose|q: int| 0 <= q < rest.len() && rest[q] == k as usize;
                    assert(c[q] == k as usize);
                }
            }
            assert forall|q: int| 0 <= q < c.len() implies (#[trigger] c[q]) < n && spec_png_candidate(obs[c[q] as int]) by {
                if q < rest.len() {
                    assert(c[q] == rest[q]);
                }
            }
            assert forall|q: int, r: int| 0 <= q < r < c.len() implies #[trigger] c[q] < #[trigger] c[r] by {
                if r < rest.len() {
                    assert(c[q] == rest[q] && c[r] == rest[r]);
                } else {
                    assert(c[q] == rest[q]);
                }
            }
        } else {
            assert(png_indices(obs, n) == rest);
            assert forall|k: int| 0 <= k < n && spec_png_candidate(#[trigger] obs[k]) implies rest.contains(k as usize) by {
                if k == n - 1 {
                } else {
                    assert(rest.contains(k as usize));
                }
            }
        }
    }
}

/// The sorted candidates of `obs`, keyed by path, with no repeated item; the
/// keys ascend strictly when paths are distinct.
proof fn lemma_sorted_candidates(obs: Seq<FileObservation>)
    requires
        obs.len() <= usize::MAX,
        forall|i: int, j: int| 0 <= i < obs.len() && 0 <= j < obs.len() && i != j ==> #[trigger] obs[i].path@ != #[trigger] obs[j].path@,
    ensures
        ({
            let c = png_indices(obs, obs.len() as int);
            let s = spec_sort_by_path(by_path(obs, c));
            &&& s.len() == c.len()
            &&& forall|e: (PathText, usize)| #[trigger] s.contains(e) <==> (0 <= e.1 < obs.len()
                && spec_png_candidate(obs[e.1 as int]) && e.0 == obs[e.1 as int].path@)
            &&& forall|i: int, j: int| 0 <= i < j < s.len() ==> path_less(#[trigger] s[i].0, #[trigger] s[j].0)
        }),
{
    let n = obs.len() as int;
    let c = png_indices(obs, n);
    lemma_png_indices(obs, n);
    let b = by_path(obs, c);
    assert(b.no_duplicates()) by {
        assert forall|i: int, j: int| 0 <= i < b.len() && 0 <= j < b.len() && i != j implies b[i] != b[j] by {
            if i < j {
                assert(c[i] < c[j]);
            } else {
                assert(c[j] < c[i]);
            }
        }
    }
    assert forall|e: (PathText, usize)| #[trigger] b.contains(e) <==> (0 <= e.1 < obs.len()
        && spec_png_candidate(obs[e.1 as int]) && e.0 == obs[e.1 as int].path@) by {
        if b.contains(e) {
            let q = choose|q: int| 0 <= q < b.len() && b[q] == e;
            assert(c[q] < n);
        }
        if 0 <= e.1 < obs.len() && spec_png_candidate(obs[e.1 as int]) && e.0 == obs[e.1 as int].path@ {
            assert(spec_png_candidate(obs[e.1 as int]));
            assert(c.contains(e.1));
            let q = choose|q: int| 0 <= q < c.len() && c[q] == e.1;
            assert(b[q] == e);
        }
    }
    lemma_sort_by_path_props(b);
    let s = spec_sort_by_path(b);
    assert forall|i: int, j: int| 0 <= i < j < s.len() implies path_less(#[trigger] s[i].0, #[trigger] s[j].0) by {
        assert(s.contains(s[i]) && s.contains(s[j]));
        assert(b.contains(s[i]) && b.contains(s[j]));
        assert(s[i] != s[j]);
        if s[i].0 == s[j].0 {
            assert(s[i].1 != s[j].1);
            assert(obs[s[i].1 as int].path@ == obs[s[j].1 as int].path@);
        }
        lemma_path_order(s[i].0, s[j].0, s[i].0);
    }
}

/// The evidence does not depend on the order of its observations, on their
/// ids or on the run id: two analyses over the same observations, listed
/// in another order and under other observation ids, with distinct paths,
/// give the same analysis id and the same entry ids for the same paths,
/// with the entries of each in strictly ascending path order.
#[verifier::rlimit(50)]
pub proof fn lemma_evidence_ignores_order_and_ids(
    obs1: Seq<FileObservation>,
    obs2: Seq<FileObservation>,
    perm: Seq<int>,
    r1: MediaProfileEvidence,
    r2: MediaProfileEvidence,
    run1: Seq<char>,
    run2: Seq<char>,
    probe_media: bool,
    provider: Option<MediaProviderEvidence>,
    policy: PolicyDigest,
)
    requires
        obs1.len() <= usize::MAX,
        obs2.len() == obs1.len(),
        perm.len() == obs1.len(),
        forall|i: int| 0 <= i < perm.len() ==> 0 <= #[trigger] perm[i] < obs1.len(),
        forall|i: int, j: int| 0 <= i < perm.len() && 0 <= j < perm.len() && i != j ==> #[trigger] perm[i] != #[trigger] perm[j],
        forall|k: int| 0 <= k < obs1.len() ==> #[trigger] is_image_of(perm, k),
        forall|i: int| 0 <= i < obs2.len() ==> differs_only_in_id(obs1[perm[i]], #[trigger] obs2[i]),
        forall|i: int, j: int| 0 <= i < obs1.len() && 0 <= j < obs1.len() && i != j ==> #[trigger] obs1[i].path@ != #[trigger] obs1[j].path@,
        evidence_of(r1, run1, obs1, probe_media, provider, policy),
        evidence_of(r2, run2, obs2, probe_media, provider, policy),
    ensures
        r1.analysis_id@ == r2.analysis_id@,
        ids_of(r1.entries@) == ids_of(r2.entries@),
        entry_paths(r1.entries@) == entry_paths(r2.entries@),
        forall|i: int, j: int| 0 <= i < j < r1.entries@.len() ==> path_less(
            #[trigger] r1.entries@[i].source.path@,
            #[trigger] r1.entries@[j].source.path@,
        ),
        forall|i: int, j: int| 0 <= i < j < r2.entries@.len() ==> path_less(
            #[trigger] r2.entries@[i].source.path@,
            #[trigger] r2.entries@[j].source.path@,
        ),
{
    let n = obs1.len() as int;
    assert forall|i: int, j: int| 0 <= i < obs2.len() && 0 <= j < obs2.len() && i != j implies #[trigger] obs2[i].path@ != #[trigger] obs2[j].path@ by {
        assert(differs_only_in_id(obs1[perm[i]], obs2[i]));
        assert(differs_only_in_id(obs1[perm[j]], obs2[j]));
        assert(obs2[i].path == obs1[perm[i]].path);
        assert(obs2[j].path == obs1[perm[j]].path);
    }
    lemma_sorted_candidates(obs1);
    lemma_sorted_candidates(obs2);
    let s1 = spec_sort_by_path(by_path(obs1, png_indices(obs1, n)));
    let s2 = spec_sort_by_path(by_path(obs2, png_indices(obs2, n)));
    let p1 = s1.map_values(|e: (PathText, usize)| e.0);
    let p2 = s2.map_values(|e: (PathText, usize)| e.0);
    assert forall|i: int, j: int| 0 <= i < j < p1.len() implies path_less(#[trigger] p1[i], #[trigger] p1[j]) by {
        assert(p1[i] == s1[i].0 && p1[j] == s1[j].0);
    }
    assert forall|i: int, j: int| 0 <= i < j < p2.len() implies path_less(#[trigger] p2[i], #[trigger] p2[j]) by {
        assert(p2[i] == s2[i].0 && p2[j] == s2[j].0);
    }
    assert forall|x: PathText| #![trigger p1.contains(x)] #![trigger p2.contains(x)] p1.contains(x) <==> p2.contains(x) by {
        if p1.contains(x) {
            let i = choose|i: int| 0 <= i < p1.len() && p1[i] == x;
            assert(s1.contains(s1[i]));
            let k = s1[i].1 as int;
            assert(is_image_of(perm, k));
            let i2 = choose|i2: int| 0 <= i2 < perm.len() && perm[i2] == k;
            assert(differs_only_in_id(obs1[perm[i2]], obs2[i2]));
            assert(s2.contains((x, i2 as usize)));
            let j = choose|j: int| 0 <= j < s2.len() && s2[j] == (x, i2 as usize);
            assert(p2[j] == x);
        }
        if p2.contains(x) {
            let i = choose|i: int| 0 <= i < p2.len() && p2[i] == x;
            assert(s2.contains(s2[i]));
            let k2 = s2[i].1 as int;
            let k = perm[k2];
            assert(differs_only_in_id(obs1[perm[k2]], obs2[k2]));
            assert(s1.contains((x, k as usize)));
            let j = choose|j: int| 0 <= j < s1.len() && s1[j] == (x, k as usize);
            assert(p1[j] == x);
        }
    }
    lemma_ascending_paths_equal(p1, p2);
    let e1 = r1.entries@;
    let e2 = r2.entries@;
    let o1 = png_order(obs1);
    let o2 = png_order(obs2);
    assert(o1.len() == s1.len() && o2.len() == s2.len());
    assert(p1.len() == p2.len());
    reveal(entry_matches);
    assert forall|i: int| 0 <= i < e1.len() implies
        (#[trigger] e1[i]).entry_id@ == e2[i].entry_id@ && e1[i].source.path@ == e2[i].source.path@ by {
        assert(p1[i] == p2[i]);
        assert(s1.contains(s1[i]) && s2.contains(s2[i]));
        let k1 = s1[i].1 as int;
        let k2 = s2[i].1 as int;
        assert(o1[i] == s1[i].1 && o2[i] == s2[i].1);
        assert(differs_only_in_id(obs1[perm[k2]], obs2[k2]));
        assert(obs1[perm[k2]].path@ == obs1[k1].path@);
        assert(perm[k2] == k1);
        let a = obs1[k1];
        let b = obs2[k2];
        assert(b == FileObservation { observation_id: b.observation_id, ..a });
        assert(entry_matches(e1[i], a, probe_media, provider, r1.profile.configuration_fingerprint, r1.evidence_policy_fingerprint));
        assert(entry_matches(e2[i], b, probe_media, provider, r2.profile.configuration_fingerprint, r2.evidence_policy_fingerprint));
        assert(digest_json(r1.profile.configuration_fingerprint) == digest_json(r2.profile.configuration_fingerprint));
        assert(digest_json(r1.evidence_policy_fingerprint) == digest_json(r2.evidence_policy_fingerprint));
        assert(source_identity_json(r1.profile.configuration_fingerprint, r1.evidence_policy_fingerprint, a, provider)
            == source_identity_json(r2.profile.configuration_fingerprint, r2.evidence_policy_fingerprint, b, provider));
        assert(digest_json(e1[i].source.fingerprint) == digest_json(e2[i].source.fingerprint));
    }
    assert(ids_of(e1) =~= ids_of(e2));
    assert(entry_paths(e1) =~= entry_paths(e2));
    assert forall|i: int| 0 <= i < e1.len() implies (#[trigger] e1[i]).source.path@ == p1[i] by {
        assert(s1.contains(s1[i]));
        assert(o1[i] == s1[i].1);
        assert(entry_matches(e1[i], obs1[o1[i] as int], probe_media, provider, r1.profile.configuration_fingerprint, r1.evidence_policy_fingerprint));
    }
    assert forall|i: int| 0 <= i < e2.len() implies (#[trigger] e2[i]).source.path@ == p2[i] by {
        assert(s2.contains(s2[i]));
        assert(o2[i] == s2[i].1);
        assert(entry_matches(e2[i], obs2[o2[i] as int], probe_media, provider, r2.profile.configuration_fingerprint, r2.evidence_policy_fingerprint));
    }
    assert forall|i: int, j: int| 0 <= i < j < e1.len() implies path_less(#[trigger] e1[i].source.path@, #[trigger] e1[j].source.path@) by {
        assert(p1[i] == e1[i].source.path@ && p1[j] == e1[j].source.path@);
    }
    assert forall|i: int, j: int| 0 <= i < j < e2.len() implies path_less(#[trigger] e2[i].source.path@, #[trigger] e2[j].source.path@) by {
        assert(p2[i] == e2[i].source.path@ && p2[j] == e2[j].source.path@);
    }
    assert(digest_json(r1.profile.configuration_fingerprint) == digest_json(r2.profile.configuration_fingerprint));
    assert(digest_json(r1.evidence_policy_fingerprint) == digest_json(r2.evidence_policy_fingerprint));
}

} // verus!
