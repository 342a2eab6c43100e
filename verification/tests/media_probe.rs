use optiflow::media_probe::{descriptor_from_probe, parse_unsigned, DurationField, IntError, ProbeFormat, ProbeOutput, ProbeStream};

fn png_stream(index: u32) -> ProbeStream {
    ProbeStream {
        index,
        codec_type: Some("video".to_owned()),
        codec_name: Some("png".to_owned()),
        width: Some(1),
        height: Some(1),
        sample_rate: None,
        channels: None,
    }
}

fn png_format() -> Option<ProbeFormat> {
    Some(ProbeFormat { format_name: Some("png_pipe".to_owned()), duration: None, bit_rate: None })
}

#[test]
fn semantic_validation_rejects_empty_and_duplicate_stream_evidence() {
    let empty = ProbeOutput { streams: Vec::new(), format: png_format() };
    assert!(descriptor_from_probe(empty, DurationField::Absent).is_err());

    let duplicate = ProbeOutput { streams: vec![png_stream(0), png_stream(0)], format: png_format() };
    assert!(descriptor_from_probe(duplicate, DurationField::Absent).is_err());
}

#[test]
fn probe_responses_become_stream_evidence() {
    let mut audio = png_stream(1);
    audio.codec_type = Some("audio".to_owned());
    audio.codec_name = Some("  ".to_owned());
    audio.width = None;
    audio.height = None;
    audio.sample_rate = Some("44100".to_owned());
    audio.channels = Some(2);
    let output = ProbeOutput {
        streams: vec![png_stream(0), audio],
        format: Some(ProbeFormat { format_name: Some("mov".to_owned()), duration: Some("1.5".to_owned()), bit_rate: Some("N/A".to_owned()) }),
    };
    let d = descriptor_from_probe(output, DurationField::Seconds(1.5f64.to_bits())).expect("valid evidence");
    assert_eq!(d.format_name.as_deref(), Some("mov"));
    assert_eq!(d.duration_seconds_bits, Some(1.5f64.to_bits()));
    assert_eq!(d.bit_rate, None);
    assert_eq!(d.streams.len(), 2);
    assert_eq!(d.streams[1].sample_rate, Some(44100));
    assert_eq!(d.streams[1].codec_name, None);
}

#[test]
fn probe_problems_are_reported_in_order() {
    let missing = ProbeOutput { streams: vec![png_stream(0)], format: None };
    assert_eq!(descriptor_from_probe(missing, DurationField::Absent).unwrap_err(), "ffprobe response omitted the format object");
    let blank = ProbeOutput {
        streams: vec![png_stream(0)],
        format: Some(ProbeFormat { format_name: Some(" ".to_owned()), duration: None, bit_rate: None }),
    };
    assert_eq!(descriptor_from_probe(blank, DurationField::Absent).unwrap_err(), "ffprobe response omitted a non-empty format name");
    let mut zero = png_stream(0);
    zero.width = Some(0);
    let zeroed = ProbeOutput { streams: vec![zero], format: png_format() };
    assert_eq!(descriptor_from_probe(zeroed, DurationField::Absent).unwrap_err(), "ffprobe response contained a zero-valued stream observation");
    let mut odd = png_stream(0);
    odd.sample_rate = Some("44.1k".to_owned());
    let odd = ProbeOutput { streams: vec![odd], format: png_format() };
    assert_eq!(descriptor_from_probe(odd, DurationField::Absent).unwrap_err(), "ffprobe returned an invalid sample rate: invalid digit found in string");
    let late = ProbeOutput { streams: vec![png_stream(0)], format: png_format() };
    assert_eq!(descriptor_from_probe(late, DurationField::Invalid("ffprobe returned an invalid duration".to_owned())).unwrap_err(), "ffprobe returned an invalid duration");
    let huge = ProbeOutput {
        streams: vec![png_stream(0)],
        format: Some(ProbeFormat { format_name: Some("png_pipe".to_owned()), duration: None, bit_rate: Some("18446744073709551616".to_owned()) }),
    };
    assert_eq!(descriptor_from_probe(huge, DurationField::Absent).unwrap_err(), "ffprobe returned an invalid bit rate: number too large to fit in target type");
}

#[test]
fn decimal_numbers_parse_like_the_standard_library() {
    assert_eq!(parse_unsigned("44100", u32::MAX as u64), Ok(44100));
    assert_eq!(parse_unsigned("+7", u32::MAX as u64), Ok(7));
    assert_eq!(parse_unsigned("", u32::MAX as u64), Err(IntError::Empty));
    assert_eq!(parse_unsigned("+", u32::MAX as u64), Err(IntError::InvalidDigit));
    assert_eq!(parse_unsigned("-1", u32::MAX as u64), Err(IntError::InvalidDigit));
    assert_eq!(parse_unsigned("4294967295", u32::MAX as u64), Ok(4294967295));
    assert_eq!(parse_unsigned("4294967296", u32::MAX as u64), Err(IntError::PosOverflow));
    assert_eq!(parse_unsigned("99999999999x", u32::MAX as u64), Err(IntError::PosOverflow));
    for text in ["0", "12", "+3", "", "+", "-", "1a", "4294967296", "007"] {
        let std_result = text.parse::<u32>().map(u64::from).map_err(|_| ());
        assert_eq!(parse_unsigned(text, u32::MAX as u64).map_err(|_| ()), std_result, "{text}");
    }
}
