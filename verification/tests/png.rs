use optiflow::domain::NativePath;
use optiflow::domain::{EvidenceDigest, MediaProviderEvidence};
use optiflow::filesystem::FilesystemIdentity;
use optiflow::png_candidate::{
    canonical_absolute_path, check_candidate_contract, request_fingerprint, CandidateContract, CandidateLimits,
    CandidateRequest, ContentIdentity, ContractRefusal, FileEvidence, ProviderResult, ProviderStatus, REQUEST_DOMAIN,
};
use optiflow::png_validation::{
    decode_png, inspect_png, observe_png, validate_png_pair, ByteRefusal, ByteValidationLimits, DecodeOutcome,
};

fn limits() -> ByteValidationLimits {
    ByteValidationLimits {
        source_bytes: 1 << 20,
        candidate_bytes: 1 << 20,
        decoded_bytes_per_image: 1 << 20,
        chunks_per_image: 64,
        decoder_allocation_bytes: 1 << 22,
    }
}

fn png_bytes(compression: png::Compression) -> Vec<u8> {
    let mut bytes = Vec::new();
    {
        let mut encoder = png::Encoder::new(&mut bytes, 4, 4);
        encoder.set_color(png::ColorType::Rgb);
        encoder.set_depth(png::BitDepth::Eight);
        encoder.set_compression(compression);
        let mut writer = encoder.write_header().expect("header");
        let pixels: Vec<u8> = (0..48u8).map(|i| i % 7).collect();
        writer.write_image_data(&pixels).expect("image data");
    }
    bytes
}

#[test]
fn a_well_formed_png_is_inspected() {
    let bytes = png_bytes(png::Compression::Fast);
    let layout = inspect_png(&bytes, limits()).expect("valid png");
    assert_eq!((layout.width, layout.height), (4, 4));
    assert_eq!(layout.color_type, 2);
    assert_eq!(layout.row_bytes, 12);
}

#[test]
fn a_corrupted_checksum_is_refused() {
    let mut bytes = png_bytes(png::Compression::Fast);
    // The IHDR chunk's CRC occupies bytes 29..33.
    bytes[30] ^= 0xff;
    assert_eq!(inspect_png(&bytes, limits()).err(), Some(ByteRefusal::InvalidChecksum));
}

#[test]
fn oversized_and_truncated_inputs_are_refused() {
    let bytes = png_bytes(png::Compression::Fast);
    let mut small = limits();
    small.decoded_bytes_per_image = 8;
    assert_eq!(inspect_png(&bytes, small).err(), Some(ByteRefusal::LimitExceeded));
    let mut tight = limits();
    tight.source_bytes = 8;
    let other = png_bytes(png::Compression::Fast);
    assert_eq!(
        validate_png_pair(&bytes, &other, tight).err(),
        Some(ByteRefusal::LimitExceeded)
    );
    assert!(inspect_png(&bytes[..20], limits()).is_err());
    assert!(inspect_png(b"not a png at all", limits()).is_err());
}

#[test]
fn an_identical_candidate_is_not_smaller() {
    let source = png_bytes(png::Compression::Fast);
    let candidate = source.clone();
    let result = validate_png_pair(&source, &candidate, limits());
    assert_eq!(result.err(), Some(ByteRefusal::NotSmaller));
}

#[test]
fn a_smaller_lossless_candidate_is_validated() {
    let source = png_bytes(png::Compression::NoCompression);
    let candidate = png_bytes(png::Compression::High);
    assert!(candidate.len() < source.len());
    let pair = validate_png_pair(&source, &candidate, limits())
        .expect("lossless recompression validates");
    assert_eq!(pair.encoded_byte_reduction(), (source.len() - candidate.len()) as u64);
}

fn digest(c: char) -> EvidenceDigest {
    EvidenceDigest { algorithm: "blake3-256".to_owned(), value: c.to_string().repeat(64) }
}

fn tool(name: &str) -> MediaProviderEvidence {
    MediaProviderEvidence {
        name: name.to_owned(),
        version: "1".to_owned(),
        executable: NativePath::Utf8 { value: format!("/usr/bin/{name}") },
        binary_digest: digest('b'),
        invocation_fingerprint: digest('c'),
    }
}

fn request() -> CandidateRequest {
    CandidateRequest {
        profile: "optiflow.png-idat-preserve.v1".to_owned(),
        source_observation_id: "obs".to_owned(),
        source: FileEvidence {
            path: NativePath::Utf8 { value: "/media/a.png".to_owned() },
            filesystem_identity: FilesystemIdentity {
                platform: "linux".to_owned(),
                filesystem_id: "1".to_owned(),
                file_id: "2".to_owned(),
                link_count: Some(1),
            },
            observation_fingerprint: digest('d'),
            content: ContentIdentity { digest: digest('e'), logical_bytes: 10 },
            regular_file: true,
            symlink: false,
        },
        effective_policy_fingerprint: digest('f'),
        producer: tool("oxipng"),
        validator: tool("check"),
        limits: CandidateLimits {
            input_bytes: 1,
            candidate_bytes: 2,
            decoded_bytes: 3,
            temporary_bytes: 4,
            memory_bytes: 5,
            elapsed_ms: 6,
        },
    }
}

fn digest_text(c: char) -> String {
    format!("{{\"algorithm\":\"blake3-256\",\"value\":\"{}\"}}", c.to_string().repeat(64))
}

fn tool_text(name: &str) -> String {
    format!(
        "{{\"name\":\"{name}\",\"version\":\"1\",\"executable\":{{\"encoding\":\"utf8\",\"value\":\"/usr/bin/{name}\"}},\"binary_digest\":{},\"invocation_fingerprint\":{}}}",
        digest_text('b'),
        digest_text('c')
    )
}

#[test]
fn request_fingerprints_are_domain_separated() {
    let json = format!(
        "{{\"profile\":\"optiflow.png-idat-preserve.v1\",\"source_observation_id\":\"obs\",\"source\":{{\"path\":{{\"encoding\":\"utf8\",\"value\":\"/media/a.png\"}},\"filesystem_identity\":{{\"platform\":\"linux\",\"filesystem_id\":\"1\",\"file_id\":\"2\",\"link_count\":1}},\"observation_fingerprint\":{},\"content\":{{\"digest\":{},\"logical_bytes\":10}},\"regular_file\":true,\"symlink\":false}},\"effective_policy_fingerprint\":{},\"producer\":{},\"validator\":{},\"limits\":{{\"input_bytes\":1,\"candidate_bytes\":2,\"decoded_bytes\":3,\"temporary_bytes\":4,\"memory_bytes\":5,\"elapsed_ms\":6}}}}",
        digest_text('d'),
        digest_text('e'),
        digest_text('f'),
        tool_text("oxipng"),
        tool_text("check")
    );
    let digest = request_fingerprint(&request());
    let mut framed = REQUEST_DOMAIN.as_bytes().to_vec();
    framed.push(0);
    framed.extend_from_slice(json.as_bytes());
    assert_eq!(digest.algorithm, "blake3-256");
    assert_eq!(digest.value, blake3::hash(&framed).to_hex().to_string());
    assert_ne!(digest.value, blake3::hash(json.as_bytes()).to_hex().to_string());
}

#[test]
fn a_packet_citing_another_request_is_refused() {
    let packet = CandidateContract {
        schema: "optiflow.png-candidate-contract.v1".to_owned(),
        request: request(),
        provider_result: ProviderResult {
            request_fingerprint: digest('0'),
            producer: tool("oxipng"),
            status: ProviderStatus::Succeeded,
            candidate: None,
        },
        host_evidence: None,
    };
    assert_eq!(check_candidate_contract(&packet, false).err(), Some(ContractRefusal::InvalidShape));
    assert_eq!(check_candidate_contract(&packet, true).err(), Some(ContractRefusal::RequestMismatch));
    let mut cited = packet.clone();
    cited.provider_result.request_fingerprint = request_fingerprint(&request());
    assert_eq!(check_candidate_contract(&cited, true).err(), Some(ContractRefusal::MissingHostEvidence));
}

#[test]
fn only_canonical_absolute_paths_are_accepted() {
    assert!(canonical_absolute_path(&NativePath::from_path(b"/media/a.png")));
    assert!(!canonical_absolute_path(&NativePath::from_path(b"media/a.png")));
    assert!(!canonical_absolute_path(&NativePath::from_path(b"/media/../a.png")));
    assert!(!canonical_absolute_path(&NativePath::from_path(b"/media//a.png")));
}

#[test]
fn a_truncated_image_stream_is_refused() {
    let bytes = png_bytes(png::Compression::NoCompression);
    // Rewrite the IDAT chunk with its last four data bytes removed and a fresh CRC.
    let mut offset = 8;
    let mut out = bytes[..8].to_vec();
    while offset < bytes.len() {
        let length = u32::from_be_bytes(bytes[offset..offset + 4].try_into().unwrap()) as usize;
        let kind = &bytes[offset + 4..offset + 8];
        let data = &bytes[offset + 8..offset + 8 + length];
        let data = if kind == b"IDAT" { &data[..data.len() - 4] } else { data };
        out.extend_from_slice(&(data.len() as u32).to_be_bytes());
        let mut crc_input = kind.to_vec();
        crc_input.extend_from_slice(data);
        out.extend_from_slice(&crc_input);
        out.extend_from_slice(&crc32fast::hash(&crc_input).to_be_bytes());
        offset += length + 12;
    }
    assert_eq!(inspect_png(&out, limits()).err(), Some(ByteRefusal::IncompleteImageStream));
}

#[test]
fn decoding_reports_the_frame_and_a_mismatched_buffer_size() {
    let bytes = png_bytes(png::Compression::Fast);
    match decode_png(&bytes, 1 << 22, 48) {
        DecodeOutcome::Frame(frame) => {
            assert_eq!((frame.width, frame.height, frame.color_type, frame.line_size), (4, 4, 2, 12));
            assert!(frame.eight_bit);
            let pixels: Vec<u8> = (0..48u8).map(|i| i % 7).collect();
            assert_eq!(frame.samples, pixels);
            assert_eq!(frame.finish_failure, None);
        }
        _ => panic!("frame expected"),
    }
    assert!(matches!(
        decode_png(&bytes, 1 << 22, 47),
        DecodeOutcome::BufferSizeReported { output_buffer_size: Some(48) }
    ));
    assert!(matches!(decode_png(&bytes, 1, 48), DecodeOutcome::InfoFailed { limits_exceeded: true }));
}

#[test]
fn observing_records_the_facts_of_the_image() {
    let bytes = png_bytes(png::Compression::Fast);
    let observed = observe_png(&bytes, limits()).expect("observed");
    assert_eq!(observed.samples.len(), 48);
    assert_eq!(observed.facts.decoded_bytes, 48);
    assert_eq!(observed.facts.bit_depth, 8);
    assert_eq!(observed.facts.frames, 1);
    assert!(observed.facts.complete_decode);
    let mut tiny = limits();
    tiny.decoder_allocation_bytes = 1;
    assert_eq!(observe_png(&bytes, tiny).err(), Some(ByteRefusal::LimitExceeded));
}

#[test]
fn a_validated_pair_records_the_same_facts() {
    let source = png_bytes(png::Compression::NoCompression);
    let candidate = png_bytes(png::Compression::High);
    let pair = validate_png_pair(&source, &candidate, limits()).expect("validated");
    assert_eq!(pair.source_png(), pair.candidate_png());
    assert_eq!(pair.source().logical_bytes, source.len() as u64);
    assert_eq!(pair.candidate().logical_bytes, candidate.len() as u64);
}
