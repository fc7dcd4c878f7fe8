//! Checks on inbound frames.
//!
//! What a client sends is checked before the server does any work with it: the
//! sample rate, the size of the audio and the language code.

use vstd::prelude::*;

use crate::config::LimitsConfig;
use crate::error_code;
use crate::text;

verus! {

/// Whether a language code is one that the server forwards.
pub open spec fn is_known_lang(s: Seq<char>) -> bool {
    ||| s == "en"@
    ||| s == "fr"@
    ||| s == "es"@
    ||| s == "de"@
    ||| s == "it"@
    ||| s == "pt"@
    ||| s == "ja"@
    ||| s == "zh"@
    ||| s == "zh-cn"@
    ||| s == "zh-tw"@
    ||| s == "pt-br"@
}

/// Whether a language code is one that the server forwards, in whatever case.
fn is_allowed_lang(lang: &str) -> (r: bool)
    ensures
        r == is_known_lang(text::lower(lang@)),
{
    let l = text::to_lower(lang);
    let s = l.as_str();
    text::same(s, "en") || text::same(s, "fr") || text::same(s, "es") || text::same(s, "de")
        || text::same(s, "it") || text::same(s, "pt") || text::same(s, "ja") || text::same(s, "zh")
        || text::same(s, "zh-cn") || text::same(s, "zh-tw") || text::same(s, "pt-br")
}

/// Why a frame is refused.
#[allow(inconsistent_fields)]
#[derive(Debug, Clone, PartialEq, Eq)]
pub enum FrameError {
    InvalidSampleRate { expected: u32, got: u32 },
    LanguageHintTooLong { max: usize, got: usize },
    UnknownLanguageHint(String),
    AudioFrameTooLarge { max: usize, got: usize },
    ConfigLanguageHintTooLong { max: usize, got: usize },
    ConfigUnknownLanguageHint(String),
}

/// Why a frame is refused, as values.
#[allow(inconsistent_fields)]
pub enum FrameErrorView {
    InvalidSampleRate { expected: u32, got: u32 },
    LanguageHintTooLong { max: int, got: int },
    UnknownLanguageHint(Seq<char>),
    AudioFrameTooLarge { max: int, got: int },
    ConfigLanguageHintTooLong { max: int, got: int },
    ConfigUnknownLanguageHint(Seq<char>),
}

impl View for FrameError {
    type V = FrameErrorView;

    open spec fn view(&self) -> FrameErrorView {
        match *self {
            FrameError::InvalidSampleRate { expected, got } => FrameErrorView::InvalidSampleRate {
                expected,
                got,
            },
            FrameError::LanguageHintTooLong { max, got } => FrameErrorView::LanguageHintTooLong {
                max: max as int,
                got: got as int,
            },
            FrameError::UnknownLanguageHint(s) => FrameErrorView::UnknownLanguageHint(s@),
            FrameError::AudioFrameTooLarge { max, got } => FrameErrorView::AudioFrameTooLarge {
                max: max as int,
                got: got as int,
            },
            FrameError::ConfigLanguageHintTooLong { max, got } =>
            FrameErrorView::ConfigLanguageHintTooLong { max: max as int, got: got as int },
            FrameError::ConfigUnknownLanguageHint(s) => FrameErrorView::ConfigUnknownLanguageHint(
                s@,
            ),
        }
    }
}

/// The message of an error.
pub open spec fn frame_error_text(e: FrameErrorView) -> Seq<char> {
    match e {
        FrameErrorView::InvalidSampleRate { expected, got } => "StartSession: sample_rate must be "@
            + text::digits(expected as nat) + ", got "@ + text::digits(got as nat),
        FrameErrorView::LanguageHintTooLong { max, got } => "StartSession: language hint exceeds "@
            + text::digits(max as nat) + " bytes (got "@ + text::digits(got as nat) + ")"@,
        FrameErrorView::UnknownLanguageHint(s) => "StartSession: unknown language hint `"@ + s
            + "`"@,
        FrameErrorView::AudioFrameTooLarge { max, got } => "AudioFrame: "@ + text::digits(
            got as nat,
        ) + " samples exceeds limit of "@ + text::digits(max as nat),
        FrameErrorView::ConfigLanguageHintTooLong { max, got } => "Config: language hint exceeds "@
            + text::digits(max as nat) + " bytes (got "@ + text::digits(got as nat) + ")"@,
        FrameErrorView::ConfigUnknownLanguageHint(s) => "Config: unknown language hint `"@ + s
            + "`"@,
    }
}

/// What is wrong with a language code in a message that begins a session.
pub open spec fn start_lang_error(limits: LimitsConfig, lang: Seq<char>) -> Option<FrameErrorView> {
    let len = text::utf8(lang).len() as int;
    if len > limits.max_language_hint_bytes as int {
        Some(
            FrameErrorView::LanguageHintTooLong {
                max: limits.max_language_hint_bytes as int,
                got: len,
            },
        )
    } else if !is_known_lang(text::lower(lang)) {
        Some(FrameErrorView::UnknownLanguageHint(lang))
    } else {
        None
    }
}

/// What is wrong with a message that begins a session.
pub open spec fn start_error(
    limits: LimitsConfig,
    sample_rate: u32,
    lang_hint: Option<Seq<char>>,
) -> Option<FrameErrorView> {
    if sample_rate != limits.required_sample_rate {
        Some(
            FrameErrorView::InvalidSampleRate {
                expected: limits.required_sample_rate,
                got: sample_rate,
            },
        )
    } else {
        match lang_hint {
            Some(l) => start_lang_error(limits, l),
            None => None,
        }
    }
}

/// What is wrong with a message that changes settings.
pub open spec fn config_error(
    limits: LimitsConfig,
    language: Option<Seq<char>>,
) -> Option<FrameErrorView> {
    match language {
        Some(l) => {
            let len = text::utf8(l).len() as int;
            if len > limits.max_language_hint_bytes as int {
                Some(
                    FrameErrorView::ConfigLanguageHintTooLong {
                        max: limits.max_language_hint_bytes as int,
                        got: len,
                    },
                )
            } else if !is_known_lang(text::lower(l)) {
                Some(FrameErrorView::ConfigUnknownLanguageHint(l))
            } else {
                None
            }
        },
        None => None,
    }
}

/// What is wrong with audio of so many samples.
pub open spec fn audio_error(limits: LimitsConfig, samples: int) -> Option<FrameErrorView> {
    if samples > limits.max_audio_frame_samples as int {
        Some(
            FrameErrorView::AudioFrameTooLarge {
                max: limits.max_audio_frame_samples as int,
                got: samples,
            },
        )
    } else {
        None
    }
}

/// Whether a check's result reports exactly this finding.
pub open spec fn reports(r: Result<(), FrameError>, e: Option<FrameErrorView>) -> bool {
    match r {
        Ok(_) => e is None,
        Err(x) => e == Some(x@),
    }
}

/// The view of an optional borrowed text.
pub open spec fn opt_str(o: Option<&str>) -> Option<Seq<char>> {
    match o {
        Some(s) => Some(s@),
        None => None,
    }
}

impl FrameError {
    /// The number that the client is told: every one is an invalid frame.
    pub fn code(&self) -> (r: u16)
        ensures
            r == error_code::INVALID_FRAME,
    {
        error_code::INVALID_FRAME
    }

    /// Check a message that begins a session.
    pub fn validate_start(
        limits: &LimitsConfig,
        sample_rate: u32,
        lang_hint: Option<&str>,
    ) -> (r: Result<(), FrameError>)
        ensures
            reports(r, start_error(*limits, sample_rate, opt_str(lang_hint))),
    {
        if sample_rate != limits.required_sample_rate {
            return Err(
                FrameError::InvalidSampleRate {
                    expected: limits.required_sample_rate,
                    got: sample_rate,
                },
            );
        }
        match lang_hint {
            Some(lang) => {
                let len: usize = text::byte_len(lang);
                if len > limits.max_language_hint_bytes {
                    return Err(
                        FrameError::LanguageHintTooLong {
                            max: limits.max_language_hint_bytes,
                            got: len,
                        },
                    );
                }
                if !is_allowed_lang(lang) {
                    return Err(FrameError::UnknownLanguageHint(text::own(lang)));
                }
                Ok(())
            },
            None => Ok(()),
        }
    }

    /// Check a message that changes settings.
    pub fn validate_config(limits: &LimitsConfig, language: Option<&str>) -> (r: Result<
        (),
        FrameError,
    >)
        ensures
            reports(r, config_error(*limits, opt_str(language))),
    {
        match language {
            Some(lang) => {
                let len: usize = text::byte_len(lang);
                if len > limits.max_language_hint_bytes {
                    return Err(
                        FrameError::ConfigLanguageHintTooLong {
                            max: limits.max_language_hint_bytes,
                            got: len,
                        },
                    );
                }
                if !is_allowed_lang(lang) {
                    return Err(FrameError::ConfigUnknownLanguageHint(text::own(lang)));
                }
                Ok(())
            },
            None => Ok(()),
        }
    }

    /// Check audio: its size has an upper bound, and no other.
    pub fn validate_audio(limits: &LimitsConfig, samples: &[u32]) -> (r: Result<(), FrameError>)
        ensures
            reports(r, audio_error(*limits, samples@.len() as int)),
    {
        if samples.len() > limits.max_audio_frame_samples {
            return Err(
                FrameError::AudioFrameTooLarge {
                    max: limits.max_audio_frame_samples,
                    got: samples.len(),
                },
            );
        }
        Ok(())
    }

    /// The message of the error.
    pub fn message(&self) -> (r: String)
        ensures
            r@ == frame_error_text(self@),
    {
        match self {
            FrameError::InvalidSampleRate { expected, got } => {
                let mut r = text::own("StartSession: sample_rate must be ");
                text::push_digits(&mut r, *expected as u64);
                r.append(", got ");
                text::push_digits(&mut r, *got as u64);
                r
            },
            FrameError::LanguageHintTooLong { max, got } => {
                let mut r = text::own("StartSession: language hint exceeds ");
                text::push_digits(&mut r, *max as u64);
                r.append(" bytes (got ");
                text::push_digits(&mut r, *got as u64);
                r.append(")");
                r
            },
            FrameError::UnknownLanguageHint(s) => {
                let mut r = text::own("StartSession: unknown language hint `");
                r.append(s.as_str());
                r.append("`");
                r
            },
            FrameError::AudioFrameTooLarge { max, got } => {
                let mut r = text::own("AudioFrame: ");
                text::push_digits(&mut r, *got as u64);
                r.append(" samples exceeds limit of ");
                text::push_digits(&mut r, *max as u64);
                r
            },
            FrameError::ConfigLanguageHintTooLong { max, got } => {
                let mut r = text::own("Config: language hint exceeds ");
                text::push_digits(&mut r, *max as u64);
                r.append(" bytes (got ");
                text::push_digits(&mut r, *got as u64);
                r.append(")");
                r
            },
            FrameError::ConfigUnknownLanguageHint(s) => {
                let mut r = text::own("Config: unknown language hint `");
                r.append(s.as_str());
                r.append("`");
                r
            },
        }
    }
}

/// The case of a language code does not matter.
pub proof fn law_language_case_does_not_matter(
    limits: LimitsConfig,
    rate: u32,
    a: Seq<char>,
    b: Seq<char>,
)
    requires
        text::lower(a) == text::lower(b),
    ensures
        start_error(limits, rate, Some(a)) is None <==> start_error(limits, rate, Some(b)) is None,
        config_error(limits, Some(a)) is None <==> config_error(limits, Some(b)) is None,
{
    text::lemma_lower_bytes(a);
    text::lemma_lower_bytes(b);
}

/// A session begins exactly at the rate that is required, and without a language or
/// with a short enough one that the model knows, in whatever case it is written.
pub proof fn law_start_is_accepted_for_known_languages(
    limits: LimitsConfig,
    rate: u32,
    lang: Seq<char>,
)
    ensures
        start_error(limits, rate, None) is None <==> rate == limits.required_sample_rate,
        start_error(limits, rate, Some(lang)) is None <==> {
            &&& rate == limits.required_sample_rate
            &&& text::utf8(lang).len() <= limits.max_language_hint_bytes
            &&& seq![
                "en"@,
                "fr"@,
                "es"@,
                "de"@,
                "it"@,
                "pt"@,
                "ja"@,
                "zh"@,
                "zh-cn"@,
                "zh-tw"@,
                "pt-br"@,
            ].contains(text::lower(lang))
        },
{
    let known = seq![
        "en"@,
        "fr"@,
        "es"@,
        "de"@,
        "it"@,
        "pt"@,
        "ja"@,
        "zh"@,
        "zh-cn"@,
        "zh-tw"@,
        "pt-br"@,
    ];
    let l = text::lower(lang);
    assert(known[0] == "en"@ && known[1] == "fr"@ && known[2] == "es"@ && known[3] == "de"@);
    assert(known[4] == "it"@ && known[5] == "pt"@ && known[6] == "ja"@ && known[7] == "zh"@);
    assert(known[8] == "zh-cn"@ && known[9] == "zh-tw"@ && known[10] == "pt-br"@);
    if known.contains(l) {
        let i = choose|i: int| 0 <= i < known.len() && known[i] == l;
        assert(0 <= i < 11);
    }
}

/// Settings take the languages that a start takes, and none at all.
pub proof fn law_settings_take_the_same_languages(limits: LimitsConfig, lang: Option<Seq<char>>)
    ensures
        config_error(limits, lang) is None <==> start_error(
            limits,
            limits.required_sample_rate,
            lang,
        ) is None,
        config_error(limits, None) is None,
{
}

/// Audio is refused exactly when it has more samples than the limit, and the refusal
/// names both.
pub proof fn law_audio_is_bounded(limits: LimitsConfig, n: nat)
    ensures
        audio_error(limits, n as int) is None <==> n <= limits.max_audio_frame_samples,
        n > limits.max_audio_frame_samples ==> frame_error_text(audio_error(limits, n as int)->0)
            == "AudioFrame: "@ + text::digits(n) + " samples exceeds limit of "@ + text::digits(
            limits.max_audio_frame_samples as nat,
        ),
{
}

/// What a client is told of a start that is refused: a wrong rate first, then a
/// language that is too long, then one that is not known.
pub proof fn law_refused_start_says_why(limits: LimitsConfig, rate: u32, lang: Seq<char>)
    ensures
        rate != limits.required_sample_rate ==> frame_error_text(
            start_error(limits, rate, Some(lang))->0,
        ) == "StartSession: sample_rate must be "@ + text::digits(
            limits.required_sample_rate as nat,
        ) + ", got "@ + text::digits(rate as nat),
        rate == limits.required_sample_rate && text::utf8(lang).len()
            > limits.max_language_hint_bytes ==> frame_error_text(
            start_error(limits, rate, Some(lang))->0,
        ) == "StartSession: language hint exceeds "@ + text::digits(
            limits.max_language_hint_bytes as nat,
        ) + " bytes (got "@ + text::digits(text::utf8(lang).len()) + ")"@,
        rate == limits.required_sample_rate && text::utf8(lang).len()
            <= limits.max_language_hint_bytes && start_error(limits, rate, Some(lang)) is Some
            ==> frame_error_text(start_error(limits, rate, Some(lang))->0)
            == "StartSession: unknown language hint `"@ + lang + "`"@,
        text::utf8(lang).len() > limits.max_language_hint_bytes ==> frame_error_text(
            config_error(limits, Some(lang))->0,
        ) == "Config: language hint exceeds "@ + text::digits(
            limits.max_language_hint_bytes as nat,
        ) + " bytes (got "@ + text::digits(text::utf8(lang).len()) + ")"@,
        text::utf8(lang).len() <= limits.max_language_hint_bytes && config_error(
            limits,
            Some(lang),
        ) is Some ==> frame_error_text(config_error(limits, Some(lang))->0)
            == "Config: unknown language hint `"@ + lang + "`"@,
{
}

} // verus!
