use optiflow::domain::{EvidenceDigest, NativePath};
use optiflow::media_provider::{ffprobe_identity, probe_arguments_list};

fn digest() -> EvidenceDigest {
    EvidenceDigest { algorithm: "blake3-256".to_owned(), value: "a".repeat(64) }
}

#[test]
fn a_provider_is_bound_to_its_invocation_and_evidence() {
    let identity = ffprobe_identity(
        "ffprobe version 6.1".to_owned(),
        NativePath::Utf8 { value: "/usr/bin/ffprobe".to_owned() },
        digest(),
    )
    .expect("an ffprobe version line");
    assert_eq!(identity.evidence.name, "ffprobe");
    let arguments = probe_arguments_list();
    let listed: Vec<String> = arguments.iter().map(|a| format!("\"{a}\"")).collect();
    let invocation = format!(
        "{{\"provider\":\"ffprobe\",\"binary_digest\":{{\"algorithm\":\"blake3-256\",\"value\":\"{}\"}},\"arguments\":[{}],\"input_binding\":\"opened_read_only_file_descriptor\"}}",
        "a".repeat(64),
        listed.join(",")
    );
    assert_eq!(identity.evidence.invocation_fingerprint.value, blake3::hash(invocation.as_bytes()).to_hex().to_string());
    let record = format!(
        "{{\"name\":\"ffprobe\",\"version\":\"ffprobe version 6.1\",\"executable\":{{\"encoding\":\"utf8\",\"value\":\"/usr/bin/ffprobe\"}},\"binary_digest\":{{\"algorithm\":\"blake3-256\",\"value\":\"{}\"}},\"invocation_fingerprint\":{{\"algorithm\":\"blake3-256\",\"value\":\"{}\"}}}}",
        "a".repeat(64),
        identity.evidence.invocation_fingerprint.value
    );
    assert_eq!(identity.cache_signature, format!("ffprobe-v1:{}", blake3::hash(record.as_bytes()).to_hex()));
}

#[test]
fn a_version_line_of_another_tool_is_refused() {
    let refused = ffprobe_identity(
        "ffmpeg version 6.1".to_owned(),
        NativePath::Utf8 { value: "/usr/bin/ffmpeg".to_owned() },
        digest(),
    );
    assert_eq!(refused.err().as_deref(), Some("ffprobe version output did not identify ffprobe"));
}
