use nagent::proto::{
    decode_frame, encode, encode_frame, AudioFrame, BackendInfo, CodecError, Config, ErrorMessage,
    FinalTranscript, PartialTranscript, Payload, Segment, StartSession, StopSession, Tag,
};

fn bits(samples: &[f32]) -> Vec<u32> {
    samples.iter().map(|s| s.to_bits()).collect()
}

#[test]
fn tag_round_trip() {
    for b in 0u8..=255 {
        if let Some(tag) = Tag::from_u8(b) {
            assert_eq!(tag.to_u8(), b);
        }
    }
}

#[test]
fn unknown_tag_is_rejected() {
    for bad in [0x00u8, 0x02, 0x0F, 0x1F, 0x22, 0x2F, 0x32, 0xFF] {
        assert!(Tag::from_u8(bad).is_none(), "byte {bad:#x} should be unknown");
    }
}

#[test]
fn audio_frame_round_trip() {
    let frame = AudioFrame { samples: bits(&[0.0, 1.0, -1.0, 0.5, -0.5]) };
    let bytes = encode(Payload::Audio(frame.clone())).unwrap();
    assert_eq!(bytes[0], Tag::AudioFrame.to_u8());
    let decoded = decode_frame(&bytes).unwrap();
    assert_eq!(decoded, Payload::Audio(frame));
}

#[test]
fn start_session_round_trip() {
    let s = StartSession { lang_hint: Some("fr".into()), sample_rate: 16000 };
    let bytes = encode(Payload::Start(s.clone())).unwrap();
    let decoded = decode_frame(&bytes).unwrap();
    assert_eq!(decoded, Payload::Start(s));
}

#[test]
fn config_round_trip() {
    let c = Config { language: Some("en".into()), translate: true };
    let bytes = encode(Payload::Config(c.clone())).unwrap();
    let decoded = decode_frame(&bytes).unwrap();
    assert_eq!(decoded, Payload::Config(c));
}

#[test]
fn final_transcript_round_trip() {
    let t = FinalTranscript {
        text: "hello world".into(),
        segments: vec![Segment {
            text: "hello world".into(),
            t0_ms: 0,
            t1_ms: 1500,
            no_speech_prob: 0.01f32.to_bits(),
        }],
        lang: "en".into(),
    };
    let bytes = encode(Payload::Final(t.clone())).unwrap();
    let decoded = decode_frame(&bytes).unwrap();
    assert_eq!(decoded, Payload::Final(t));
}

#[test]
fn empty_frame_is_rejected() {
    let err = decode_frame(&[]).unwrap_err();
    assert!(matches!(err, CodecError::EmptyFrame));
}

#[test]
fn unknown_tag_byte_is_rejected() {
    let err = decode_frame(&[0xFE, 0x00]).unwrap_err();
    assert!(matches!(err, CodecError::UnknownTag(0xFE)));
}

#[test]
fn payload_tag_matches_variant() {
    let p = Payload::Stop(StopSession);
    assert_eq!(p.tag().to_u8(), 0x11);
}

#[test]
fn wire_format_is_tag_then_inner_only() {
    let audio = Payload::Audio(AudioFrame { samples: vec![] });
    let bytes = encode_frame(&audio).unwrap();
    assert_eq!(bytes, vec![Tag::AudioFrame.to_u8(), 0x00]);

    let start = Payload::Start(StartSession { lang_hint: None, sample_rate: 16000 });
    let bytes = encode_frame(&start).unwrap();
    assert_eq!(bytes, vec![Tag::StartSession.to_u8(), 0x00, 0x80, 0x7D]);

    let backend = Payload::Backend(BackendInfo { model_id: "a".into(), gpu_backend: "b".into() });
    let bytes = encode_frame(&backend).unwrap();
    assert_eq!(bytes, vec![Tag::BackendInfo.to_u8(), 0x01, b'a', 0x01, b'b']);

    let err = Payload::Error(ErrorMessage { code: 1, message: "x".into() });
    let bytes = encode_frame(&err).unwrap();
    assert_eq!(bytes, vec![Tag::Error.to_u8(), 0x01, 0x01, b'x']);

    let bytes = encode_frame(&Payload::Stop(StopSession)).unwrap();
    assert_eq!(bytes, vec![Tag::StopSession.to_u8()]);
}

#[test]
fn decode_rejects_unknown_tag_without_consuming_payload() {
    let err = decode_frame(&[0xAA, 0xFF, 0xFF, 0xFF]).unwrap_err();
    match err {
        CodecError::UnknownTag(0xAA) => {}
        other => panic!("expected UnknownTag(0xAA), got {other:?}"),
    }
}

#[test]
fn tag_bytes_are_the_wire_contract() {
    let pairs = [
        (Tag::AudioFrame, 0x01u8),
        (Tag::StartSession, 0x10),
        (Tag::StopSession, 0x11),
        (Tag::Config, 0x12),
        (Tag::PartialTranscript, 0x20),
        (Tag::FinalTranscript, 0x21),
        (Tag::Error, 0x30),
        (Tag::BackendInfo, 0x31),
    ];
    for (tag, byte) in pairs {
        assert_eq!(tag.to_u8(), byte);
        assert_eq!(Tag::from_u8(byte), Some(tag));
    }
}

#[test]
fn every_message_survives_the_wire() {
    let messages: Vec<Payload> = vec![
        AudioFrame { samples: bits(&[0.25, f32::MIN, f32::MAX, f32::NAN]) }.into(),
        StartSession { lang_hint: None, sample_rate: u32::MAX }.into(),
        StopSession.into(),
        Config { language: None, translate: false }.into(),
        PartialTranscript { text: "é".into(), t0_ms: 1, t1_ms: 2, lang: "fr".into() }.into(),
        FinalTranscript { text: "".into(), segments: vec![], lang: "".into() }.into(),
        ErrorMessage { code: u16::MAX, message: "no".into() }.into(),
        BackendInfo { model_id: "m".into(), gpu_backend: "cpu".into() }.into(),
    ];
    for m in messages {
        let bytes = encode_frame(&m).unwrap();
        assert_eq!(bytes[0], m.tag().to_u8());
        assert_eq!(decode_frame(&bytes).unwrap(), m);
    }
}

#[test]
fn a_float_sample_is_four_little_endian_bytes() {
    let bytes = encode(Payload::Audio(AudioFrame { samples: bits(&[1.0]) })).unwrap();
    assert_eq!(bytes, vec![0x01, 0x01, 0x00, 0x00, 0x80, 0x3F]);
}

#[test]
fn cut_off_frame_is_a_codec_error() {
    let err = decode_frame(&[Tag::AudioFrame.to_u8(), 0x02, 0x00]).unwrap_err();
    match &err {
        CodecError::Postcard(_) => {}
        other => panic!("expected Postcard, got {other:?}"),
    }
    assert!(!err.message().is_empty());
    assert_eq!(CodecError::EmptyFrame.message(), "frame is empty");
    assert_eq!(CodecError::UnknownTag(0xFE).message(), "unknown tag byte 0xfe");
}
