//! The identity of the ffprobe provider a scan binds its media evidence to:
//! its exact version line, canonical executable and binary digest, the
//! fingerprint of the one invocation it is run with, and the cache
//! signature derived from all of them.

use vstd::prelude::*;
use crate::domain::{EvidenceDigest, MediaProviderEvidence, NativePath};
use crate::json::{
    json_array, json_joined, json_member, json_object, json_string, lemma_member_pushed, push_json_string,
    push_json_string_array, push_member_key, push_str,
};
use crate::media_evidence::{digest_json, digest_of_text, provider_json, push_digest_json, push_provider_object};
use crate::digest::{blake3_hex, blake3_hex_of};
use crate::text::{chars_of, owned, string_of};

verus! {

/// The arguments of every probe: error-level logging, the format and stream
/// entries the evidence records, JSON output, and the source read from the
/// opened file handle given as standard input.
pub open spec fn probe_arguments() -> Seq<Seq<char>> {
    seq![
        "-v"@,
        "error"@,
        "-show_entries"@,
        "format=format_name,duration,bit_rate:stream=index,codec_type,codec_name,width,height,sample_rate,channels"@,
        "-of"@,
        "json"@,
        "/dev/fd/0"@,
    ]
}

/// The probe arguments.
pub fn probe_arguments_list() -> (r: Vec<String>)
    ensures
        r@.map_values(|s: String| s@) == probe_arguments(),
{
    let mut r: Vec<String> = Vec::new();
    r.push(owned("-v"));
    r.push(owned("error"));
    r.push(owned("-show_entries"));
    r.push(owned("format=format_name,duration,bit_rate:stream=index,codec_type,codec_name,width,height,sample_rate,channels"));
    r.push(owned("-of"));
    r.push(owned("json"));
    r.push(owned("/dev/fd/0"));
    assert(r@.map_values(|s: String| s@) =~= probe_arguments());
    r
}

pub const INPUT_BINDING: &'static str = "opened_read_only_file_descriptor";
pub const VERSION_PREFIX: &'static str = "ffprobe version ";

/// The canonical text of the invocation a provider is bound to.
pub open spec fn invocation_json(binary_digest: EvidenceDigest) -> Seq<char> {
    json_object(seq![
        json_member("provider"@, json_string("ffprobe"@)),
        json_member("binary_digest"@, digest_json(binary_digest)),
        json_member("arguments"@, json_array(probe_arguments().map_values(|a: Seq<char>| json_string(a)))),
        json_member("input_binding"@, json_string(INPUT_BINDING@)),
    ])
}

/// The cache signature of a provider: `ffprobe-v1:` and the digest of its
/// evidence record.
pub open spec fn cache_signature_of(evidence: MediaProviderEvidence) -> Seq<char> {
    "ffprobe-v1:"@ + blake3_hex(vstd::utf8::encode_utf8(provider_json(Some(evidence))))
}

/// A provider bound to its evidence and cache signature.
#[derive(Debug, Clone)]
pub struct ProviderIdentity {
    pub evidence: MediaProviderEvidence,
    pub cache_signature: String,
}

fn invocation_text(binary_digest: &EvidenceDigest) -> (t: Vec<char>)
    ensures
        t@ == invocation_json(*binary_digest),
{
    let arguments = probe_arguments_list();
    let mut out: Vec<char> = Vec::new();
    let ghost start = out@;
    out.push('{');
    let ghost mut done: Seq<Seq<char>> = seq![];
    assert(out@ =~= start + seq!['{'] + json_joined(done));
    push_member_key(&mut out, "provider", true, Ghost(start), Ghost(done));
    push_json_string(&mut out, "ffprobe");
    proof {
        lemma_member_pushed(start, done, "provider"@, json_string("ffprobe"@), out@);
        done = done.push(json_member("provider"@, json_string("ffprobe"@)));
    }
    push_member_key(&mut out, "binary_digest", false, Ghost(start), Ghost(done));
    push_digest_json(&mut out, binary_digest);
    proof {
        lemma_member_pushed(start, done, "binary_digest"@, digest_json(*binary_digest), out@);
        done = done.push(json_member("binary_digest"@, digest_json(*binary_digest)));
    }
    push_member_key(&mut out, "arguments", false, Ghost(start), Ghost(done));
    push_json_string_array(&mut out, &arguments);
    let ghost listed = json_array(probe_arguments().map_values(|a: Seq<char>| json_string(a)));
    proof {
        let a = arguments@.map_values(|s: String| json_string(s@));
        let b = probe_arguments().map_values(|x: Seq<char>| json_string(x));
        let views = arguments@.map_values(|s: String| s@);
        assert(a.len() == b.len());
        assert forall|j: int| 0 <= j < a.len() implies a[j] == b[j] by {
            assert(views[j] == probe_arguments()[j]);
        }
        assert(a =~= b);
    }
    proof {
        lemma_member_pushed(start, done, "arguments"@, listed, out@);
        done = done.push(json_member("arguments"@, listed));
    }
    push_member_key(&mut out, "input_binding", false, Ghost(start), Ghost(done));
    push_json_string(&mut out, INPUT_BINDING);
    proof {
        lemma_member_pushed(start, done, "input_binding"@, json_string(INPUT_BINDING@), out@);
        done = done.push(json_member("input_binding"@, json_string(INPUT_BINDING@)));
    }
    out.push('}');
    assert(done =~= seq![
        json_member("provider"@, json_string("ffprobe"@)),
        json_member("binary_digest"@, digest_json(*binary_digest)),
        json_member("arguments"@, listed),
        json_member("input_binding"@, json_string(INPUT_BINDING@)),
    ]);
    assert(out@ =~= invocation_json(*binary_digest));
    out
}

fn text_digest(text: &Vec<char>) -> (d: EvidenceDigest)
    ensures
        digest_of_text(d, text@),
{
    let s = string_of(text);
    EvidenceDigest { algorithm: owned("blake3-256"), value: blake3_hex_of(s.as_str().as_bytes()) }
}

fn starts_with_version_prefix(version: &str) -> (r: bool)
    ensures
        r == (version@.len() >= VERSION_PREFIX@.len() && version@.take(VERSION_PREFIX@.len() as int) == VERSION_PREFIX@),
{
    let text = chars_of(version);
    let prefix = chars_of(VERSION_PREFIX);
    if text.len() < prefix.len() {
        return false;
    }
    let mut i: usize = 0;
    while i < prefix.len()
        invariant
            text@ == version@,
            prefix@ == VERSION_PREFIX@,
            prefix@.len() <= text@.len(),
            i <= prefix@.len(),
            forall|k: int| 0 <= k < i ==> text@[k] == prefix@[k],
        decreases prefix@.len() - i,
    {
        if text[i] != prefix[i] {
            assert(version@.take(VERSION_PREFIX@.len() as int)[i as int] != VERSION_PREFIX@[i as int]);
            return false;
        }
        i = i + 1;
    }
    assert(version@.take(VERSION_PREFIX@.len() as int) =~= VERSION_PREFIX@);
    true
}

/// Binds an ffprobe executable to its identity from the first line of its
/// version output, its canonical path and the digest of its bytes. A version
/// line that does not identify ffprobe is refused.
pub fn ffprobe_identity(version: String, executable: NativePath, binary_digest: EvidenceDigest) -> (r: Result<ProviderIdentity, String>)
    ensures
        match r {
            Ok(id) => {
                &&& version@.len() >= VERSION_PREFIX@.len()
                &&& version@.take(VERSION_PREFIX@.len() as int) == VERSION_PREFIX@
                &&& id.evidence.name@ == "ffprobe"@
                &&& id.evidence.version == version
                &&& id.evidence.executable == executable
                &&& id.evidence.binary_digest == binary_digest
                &&& digest_of_text(id.evidence.invocation_fingerprint, invocation_json(binary_digest))
                &&& id.cache_signature@ == cache_signature_of(id.evidence)
            },
            Err(message) => {
                &&& !(version@.len() >= VERSION_PREFIX@.len() && version@.take(VERSION_PREFIX@.len() as int) == VERSION_PREFIX@)
                &&& message@ == "ffprobe version output did not identify ffprobe"@
            },
        },
{
    if !starts_with_version_prefix(version.as_str()) {
        return Err(owned("ffprobe version output did not identify ffprobe"));
    }
    let invocation = invocation_text(&binary_digest);
    let evidence = MediaProviderEvidence {
        name: owned("ffprobe"),
        version,
        executable,
        binary_digest,
        invocation_fingerprint: text_digest(&invocation),
    };
    let mut record: Vec<char> = Vec::new();
    push_provider_object(&mut record, &evidence);
    let digest = text_digest(&record);
    let mut signature: Vec<char> = Vec::new();
    push_str(&mut signature, "ffprobe-v1:");
    let digits = chars_of(digest.value.as_str());
    let ghost head = signature@;
    let mut i: usize = 0;
    while i < digits.len()
        invariant
            i <= digits@.len(),
            signature@ == head + digits@.take(i as int),
        decreases digits@.len() - i,
    {
        signature.push(digits[i]);
        i = i + 1;
        assert(digits@.take(i as int) =~= digits@.take(i - 1).push(digits@[i - 1]));
    }
    assert(digits@.take(digits@.len() as int) =~= digits@);
    Ok(ProviderIdentity { evidence, cache_signature: string_of(&signature) })
}

} // verus!
