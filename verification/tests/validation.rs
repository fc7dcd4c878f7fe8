use nagent::config::LimitsConfig;
use nagent::error_code;
use nagent::validation::FrameError;

fn defaults() -> LimitsConfig {
    LimitsConfig::default()
}

#[test]
fn start_accepts_expected_sample_rate() {
    assert!(FrameError::validate_start(&defaults(), 16_000, None).is_ok());
}

#[test]
fn start_rejects_other_sample_rates() {
    for bad in [8_000u32, 22_050, 44_100, 48_000] {
        let err = FrameError::validate_start(&defaults(), bad, None).unwrap_err();
        assert!(matches!(err, FrameError::InvalidSampleRate { got, .. } if got == bad));
    }
}

#[test]
fn start_accepts_known_language_hints_case_insensitive() {
    for lang in ["en", "EN", "En", "fr", "zh-cn", "pt-BR", "ja"] {
        assert!(
            FrameError::validate_start(&defaults(), 16_000, Some(lang)).is_ok(),
            "{lang} should be accepted"
        );
    }
}

#[test]
fn start_rejects_unknown_language_hints() {
    let err = FrameError::validate_start(&defaults(), 16_000, Some("xx")).unwrap_err();
    assert!(matches!(err, FrameError::UnknownLanguageHint(s) if s == "xx"));
}

#[test]
fn start_rejects_overlong_language_hints() {
    let huge = "a".repeat(64);
    let err = FrameError::validate_start(&defaults(), 16_000, Some(&huge)).unwrap_err();
    assert!(matches!(err, FrameError::LanguageHintTooLong { .. }));
}

#[test]
fn audio_rejects_oversized_frames() {
    let limits = defaults();
    let ok = vec![0.0_f32.to_bits(); limits.max_audio_frame_samples];
    assert!(FrameError::validate_audio(&limits, &ok).is_ok());
    let too_big = vec![0.0_f32.to_bits(); limits.max_audio_frame_samples + 1];
    let err = FrameError::validate_audio(&limits, &too_big).unwrap_err();
    assert!(matches!(err, FrameError::AudioFrameTooLarge { .. }));
}

#[test]
fn audio_accepts_empty_frame() {
    assert!(FrameError::validate_audio(&defaults(), &[]).is_ok());
}

#[test]
fn config_rejects_unknown_language_hints() {
    let err = FrameError::validate_config(&defaults(), Some("klingon")).unwrap_err();
    assert!(matches!(err, FrameError::ConfigUnknownLanguageHint(s) if s == "klingon"));
}

#[test]
fn config_accepts_known_language_hint() {
    assert!(FrameError::validate_config(&defaults(), Some("en")).is_ok());
}

#[test]
fn all_frame_errors_map_to_invalid_frame_code() {
    let cases: Vec<FrameError> = vec![
        FrameError::InvalidSampleRate { expected: 16_000, got: 8_000 },
        FrameError::LanguageHintTooLong { max: 16, got: 32 },
        FrameError::UnknownLanguageHint("xx".into()),
        FrameError::AudioFrameTooLarge { max: 1, got: 2 },
        FrameError::ConfigLanguageHintTooLong { max: 16, got: 32 },
        FrameError::ConfigUnknownLanguageHint("xx".into()),
    ];
    for err in cases {
        assert_eq!(err.code(), error_code::INVALID_FRAME);
        assert!(!err.message().is_empty());
    }
}

#[test]
fn the_sample_rate_is_looked_at_before_the_hint() {
    let err = FrameError::validate_start(&defaults(), 8_000, Some("xx")).unwrap_err();
    assert!(matches!(err, FrameError::InvalidSampleRate { expected: 16_000, got: 8_000 }));
}

#[test]
fn a_hint_of_the_greatest_length_is_judged_by_its_language() {
    let limits = defaults();
    let edge = "a".repeat(limits.max_language_hint_bytes);
    let err = FrameError::validate_config(&limits, Some(&edge)).unwrap_err();
    assert!(matches!(err, FrameError::ConfigUnknownLanguageHint(_)));
    let over = "a".repeat(limits.max_language_hint_bytes + 1);
    let err = FrameError::validate_config(&limits, Some(&over)).unwrap_err();
    assert!(matches!(err, FrameError::ConfigLanguageHintTooLong { .. }));
}
