//! The WebSocket protocol: its messages and their bytes.
//!
//! A frame is one tag byte and the message's `postcard` form. The tag alone says
//! which message follows; the message is written without a variant number.
//! Samples and probabilities are 32-bit floating-point numbers on the wire and
//! are held here as their bit patterns.

use vstd::prelude::*;

use crate::text;

verus! {

// ---- Tags ---------------------------------------------------------------

/// The kind of a frame.
#[derive(Debug, Clone, Copy, PartialEq, Eq, Hash, Structural)]
pub enum Tag {
    /// Audio from the client.
    AudioFrame,
    /// The client begins a session.
    StartSession,
    /// The client ends its session.
    StopSession,
    /// The client changes its settings.
    Config,
    /// A transcript that may still change.
    PartialTranscript,
    /// A transcript that is final.
    FinalTranscript,
    /// An error.
    Error,
    /// The model and backend in use.
    BackendInfo,
}

impl Tag {
    /// The tag's byte.
    pub open spec fn byte(self) -> u8 {
        match self {
            Tag::AudioFrame => 0x01,
            Tag::StartSession => 0x10,
            Tag::StopSession => 0x11,
            Tag::Config => 0x12,
            Tag::PartialTranscript => 0x20,
            Tag::FinalTranscript => 0x21,
            Tag::Error => 0x30,
            Tag::BackendInfo => 0x31,
        }
    }

    /// The tag's byte.
    pub fn to_u8(self) -> (r: u8)
        ensures
            r == self.byte(),
    {
        match self {
            Tag::AudioFrame => 0x01,
            Tag::StartSession => 0x10,
            Tag::StopSession => 0x11,
            Tag::Config => 0x12,
            Tag::PartialTranscript => 0x20,
            Tag::FinalTranscript => 0x21,
            Tag::Error => 0x30,
            Tag::BackendInfo => 0x31,
        }
    }

    /// The tag of a byte, when there is one.
    pub fn from_u8(byte: u8) -> (r: Option<Self>)
        ensures
            match r {
                Some(t) => t.byte() == byte,
                None => forall|t: Tag| #[trigger] t.byte() != byte,
            },
    {
        match byte {
            0x01 => Some(Tag::AudioFrame),
            0x10 => Some(Tag::StartSession),
            0x11 => Some(Tag::StopSession),
            0x12 => Some(Tag::Config),
            0x20 => Some(Tag::PartialTranscript),
            0x21 => Some(Tag::FinalTranscript),
            0x30 => Some(Tag::Error),
            0x31 => Some(Tag::BackendInfo),
            _ => None,
        }
    }
}

// ---- Messages -----------------------------------------------------------

/// One piece of speech.
#[derive(Debug, Clone, PartialEq, Eq)]
pub struct AudioFrame {
    /// Mono samples at 16 kHz, each the bits of a 32-bit float.
    pub samples: Vec<u32>,
}

/// The client begins a session.
#[derive(Debug, Clone, PartialEq, Eq)]
pub struct StartSession {
    /// The language that the user speaks.
    pub lang_hint: Option<String>,
    /// The rate of the samples to come.
    pub sample_rate: u32,
}

/// The client ends its session.
#[derive(Debug, Clone, Copy, PartialEq, Eq)]
pub struct StopSession;

/// The client changes its settings.
#[derive(Debug, Clone, PartialEq, Eq)]
pub struct Config {
    /// The language; none to detect it.
    pub language: Option<String>,
    /// Whether to translate to English.
    pub translate: bool,
}

/// One segment of a transcript.
#[derive(Debug, Clone, PartialEq, Eq)]
pub struct Segment {
    pub text: String,
    pub t0_ms: u32,
    pub t1_ms: u32,
    /// The bits of a 32-bit float.
    pub no_speech_prob: u32,
}

/// A transcript that may still change.
#[derive(Debug, Clone, PartialEq, Eq)]
pub struct PartialTranscript {
    pub text: String,
    pub t0_ms: u32,
    pub t1_ms: u32,
    pub lang: String,
}

/// A transcript that is final.
#[derive(Debug, Clone, PartialEq, Eq)]
pub struct FinalTranscript {
    pub text: String,
    pub segments: Vec<Segment>,
    pub lang: String,
}

/// An error.
#[derive(Debug, Clone, PartialEq, Eq)]
pub struct ErrorMessage {
    pub code: u16,
    pub message: String,
}

/// The model and backend in use.
#[derive(Debug, Clone, PartialEq, Eq)]
pub struct BackendInfo {
    pub model_id: String,
    pub gpu_backend: String,
}

/// Every message.
#[derive(Debug, Clone, PartialEq, Eq)]
pub enum Payload {
    Audio(AudioFrame),
    Start(StartSession),
    Stop(StopSession),
    Config(Config),
    Partial(PartialTranscript),
    Final(FinalTranscript),
    Error(ErrorMessage),
    Backend(BackendInfo),
}

impl From<AudioFrame> for Payload {
    fn from(v: AudioFrame) -> (r: Self) {
        Payload::Audio(v)
    }
}

impl vstd::std_specs::convert::FromSpecImpl<AudioFrame> for Payload {
    open spec fn obeys_from_spec() -> bool {
        true
    }

    open spec fn from_spec(v: AudioFrame) -> Self {
        Payload::Audio(v)
    }
}

impl From<StartSession> for Payload {
    fn from(v: StartSession) -> (r: Self) {
        Payload::Start(v)
    }
}

impl vstd::std_specs::convert::FromSpecImpl<StartSession> for Payload {
    open spec fn obeys_from_spec() -> bool {
        true
    }

    open spec fn from_spec(v: StartSession) -> Self {
        Payload::Start(v)
    }
}

impl From<StopSession> for Payload {
    fn from(v: StopSession) -> (r: Self) {
        Payload::Stop(v)
    }
}

impl vstd::std_specs::convert::FromSpecImpl<StopSession> for Payload {
    open spec fn obeys_from_spec() -> bool {
        true
    }

    open spec fn from_spec(v: StopSession) -> Self {
        Payload::Stop(v)
    }
}

impl From<Config> for Payload {
    fn from(v: Config) -> (r: Self) {
        Payload::Config(v)
    }
}

impl vstd::std_specs::convert::FromSpecImpl<Config> for Payload {
    open spec fn obeys_from_spec() -> bool {
        true
    }

    open spec fn from_spec(v: Config) -> Self {
        Payload::Config(v)
    }
}

impl From<PartialTranscript> for Payload {
    fn from(v: PartialTranscript) -> (r: Self) {
        Payload::Partial(v)
    }
}

impl vstd::std_specs::convert::FromSpecImpl<PartialTranscript> for Payload {
    open spec fn obeys_from_spec() -> bool {
        true
    }

    open spec fn from_spec(v: PartialTranscript) -> Self {
        Payload::Partial(v)
    }
}

impl From<FinalTranscript> for Payload {
    fn from(v: FinalTranscript) -> (r: Self) {
        Payload::Final(v)
    }
}

impl vstd::std_specs::convert::FromSpecImpl<FinalTranscript> for Payload {
    open spec fn obeys_from_spec() -> bool {
        true
    }

    open spec fn from_spec(v: FinalTranscript) -> Self {
        Payload::Final(v)
    }
}

impl From<ErrorMessage> for Payload {
    fn from(v: ErrorMessage) -> (r: Self) {
        Payload::Error(v)
    }
}

impl vstd::std_specs::convert::FromSpecImpl<ErrorMessage> for Payload {
    open spec fn obeys_from_spec() -> bool {
        true
    }

    open spec fn from_spec(v: ErrorMessage) -> Self {
        Payload::Error(v)
    }
}

impl From<BackendInfo> for Payload {
    fn from(v: BackendInfo) -> (r: Self) {
        Payload::Backend(v)
    }
}

impl vstd::std_specs::convert::FromSpecImpl<BackendInfo> for Payload {
    open spec fn obeys_from_spec() -> bool {
        true
    }

    open spec fn from_spec(v: BackendInfo) -> Self {
        Payload::Backend(v)
    }
}

/// A segment, as values.
pub struct SegmentView {
    pub text: Seq<char>,
    pub t0_ms: u32,
    pub t1_ms: u32,
    pub no_speech_prob: u32,
}

impl View for Segment {
    type V = SegmentView;

    open spec fn view(&self) -> SegmentView {
        SegmentView {
            text: self.text@,
            t0_ms: self.t0_ms,
            t1_ms: self.t1_ms,
            no_speech_prob: self.no_speech_prob,
        }
    }
}

/// The views of segments.
pub open spec fn segments_view(s: Seq<Segment>) -> Seq<SegmentView> {
    s.map_values(|x: Segment| x@)
}

/// A message, as values.
pub enum PayloadView {
    Audio { samples: Seq<u32> },
    Start { lang_hint: Option<Seq<char>>, sample_rate: u32 },
    Stop,
    Config { language: Option<Seq<char>>, translate: bool },
    Partial { text: Seq<char>, t0_ms: u32, t1_ms: u32, lang: Seq<char> },
    Final { text: Seq<char>, segments: Seq<SegmentView>, lang: Seq<char> },
    Error { code: u16, message: Seq<char> },
    Backend { model_id: Seq<char>, gpu_backend: Seq<char> },
}

impl View for Payload {
    type V = PayloadView;

    open spec fn view(&self) -> PayloadView {
        match *self {
            Payload::Audio(p) => PayloadView::Audio { samples: p.samples@ },
            Payload::Start(p) => PayloadView::Start {
                lang_hint: text::opt_text(p.lang_hint),
                sample_rate: p.sample_rate,
            },
            Payload::Stop(_) => PayloadView::Stop,
            Payload::Config(p) => PayloadView::Config {
                language: text::opt_text(p.language),
                translate: p.translate,
            },
            Payload::Partial(p) => PayloadView::Partial {
                text: p.text@,
                t0_ms: p.t0_ms,
                t1_ms: p.t1_ms,
                lang: p.lang@,
            },
            Payload::Final(p) => PayloadView::Final {
                text: p.text@,
                segments: segments_view(p.segments@),
                lang: p.lang@,
            },
            Payload::Error(p) => PayloadView::Error { code: p.code, message: p.message@ },
            Payload::Backend(p) => PayloadView::Backend {
                model_id: p.model_id@,
                gpu_backend: p.gpu_backend@,
            },
        }
    }
}

/// The tag of a message.
pub open spec fn tag_of(p: PayloadView) -> Tag {
    match p {
        PayloadView::Audio { .. } => Tag::AudioFrame,
        PayloadView::Start { .. } => Tag::StartSession,
        PayloadView::Stop => Tag::StopSession,
        PayloadView::Config { .. } => Tag::Config,
        PayloadView::Partial { .. } => Tag::PartialTranscript,
        PayloadView::Final { .. } => Tag::FinalTranscript,
        PayloadView::Error { .. } => Tag::Error,
        PayloadView::Backend { .. } => Tag::BackendInfo,
    }
}

impl Payload {
    /// The tag that stands before this message.
    pub fn tag(&self) -> (r: Tag)
        ensures
            r == tag_of(self@),
    {
        match self {
            Payload::Audio(_) => Tag::AudioFrame,
            Payload::Start(_) => Tag::StartSession,
            Payload::Stop(_) => Tag::StopSession,
            Payload::Config(_) => Tag::Config,
            Payload::Partial(_) => Tag::PartialTranscript,
            Payload::Final(_) => Tag::FinalTranscript,
            Payload::Error(_) => Tag::Error,
            Payload::Backend(_) => Tag::BackendInfo,
        }
    }
}

// ---- Bytes --------------------------------------------------------------

/// A natural number, seven bits to a byte from the low end; the high bit says
/// that more follow.
pub open spec fn varint(n: nat) -> Seq<u8>
    decreases n,
{
    if n < 128 {
        seq![n as u8]
    } else {
        seq![(n % 128 + 128) as u8] + varint(n / 128)
    }
}

/// Four bytes from the low end.
pub open spec fn le_bytes(b: u32) -> Seq<u8> {
    seq![
        (b as int % 256) as u8,
        (b as int / 256 % 256) as u8,
        (b as int / 65536 % 256) as u8,
        (b as int / 16777216 % 256) as u8,
    ]
}

/// A text: the number of its bytes, then its bytes.
pub open spec fn text_bytes(s: Seq<char>) -> Seq<u8> {
    varint(text::utf8(s).len()) + text::utf8(s)
}

/// A text that may be missing.
pub open spec fn opt_text_bytes(o: Option<Seq<char>>) -> Seq<u8> {
    match o {
        None => seq![0u8],
        Some(s) => seq![1u8] + text_bytes(s),
    }
}

/// Samples one after the other.
pub open spec fn sample_bytes(s: Seq<u32>) -> Seq<u8>
    decreases s.len(),
{
    if s.len() == 0 {
        Seq::empty()
    } else {
        sample_bytes(s.drop_last()) + le_bytes(s.last())
    }
}

/// Segments one after the other.
pub open spec fn segment_bytes(s: Seq<SegmentView>) -> Seq<u8>
    decreases s.len(),
{
    if s.len() == 0 {
        Seq::empty()
    } else {
        let x = s.last();
        segment_bytes(s.drop_last()) + (text_bytes(x.text) + varint(x.t0_ms as nat) + varint(
            x.t1_ms as nat,
        ) + le_bytes(x.no_speech_prob))
    }
}

/// The bytes of a message without its tag.
pub open spec fn payload_bytes(p: PayloadView) -> Seq<u8> {
    match p {
        PayloadView::Audio { samples } => varint(samples.len()) + sample_bytes(samples),
        PayloadView::Start { lang_hint, sample_rate } => opt_text_bytes(lang_hint) + varint(
            sample_rate as nat,
        ),
        PayloadView::Stop => Seq::empty(),
        PayloadView::Config { language, translate } => opt_text_bytes(language) + seq![
            if translate {
                1u8
            } else {
                0u8
            },
        ],
        PayloadView::Partial { text: t, t0_ms, t1_ms, lang } => text_bytes(t) + varint(
            t0_ms as nat,
        ) + varint(t1_ms as nat) + text_bytes(lang),
        PayloadView::Final { text: t, segments, lang } => text_bytes(t) + (varint(segments.len())
            + segment_bytes(segments)) + text_bytes(lang),
        PayloadView::Error { code, message } => varint(code as nat) + text_bytes(message),
        PayloadView::Backend { model_id, gpu_backend } => text_bytes(model_id) + text_bytes(
            gpu_backend,
        ),
    }
}

/// The bytes of a frame.
pub open spec fn frame_bytes(p: PayloadView) -> Seq<u8> {
    seq![tag_of(p).byte()] + payload_bytes(p)
}

// ---- postcard -----------------------------------------------------------

/// `postcard::to_allocvec` on a list of four-byte arrays; it writes the parts one
/// after the other and does not fail.
#[verifier::external_body]
fn encode_audio(samples: &Vec<u32>) -> (r: Result<Vec<u8>, String>)
    ensures
        r is Ok,
        r->Ok_0@ == payload_bytes(PayloadView::Audio { samples: samples@ }),
{
    let list: Vec<[u8; 4]> = samples.iter().map(|b| b.to_le_bytes()).collect();
    postcard::to_allocvec(&list).map_err(|e| e.to_string())
}

/// What `postcard::from_bytes` reads as a list of four-byte arrays: the parts, or
/// the message of the error. A length that takes more bytes than it needs is
/// judged by the width of a pointer.
pub uninterp spec fn audio_read(b: Seq<u8>) -> Result<Seq<u32>, Seq<char>>;

/// `postcard::from_bytes` for a list of four-byte arrays. The result is a function
/// of the bytes; it reads back what was written.
#[verifier::external_body]
fn decode_audio(b: &[u8]) -> (r: Result<Vec<u32>, String>)
    ensures
        match r {
            Ok(v) => audio_read(b@) == Ok::<Seq<u32>, Seq<char>>(v@),
            Err(e) => audio_read(b@) == Err::<Seq<u32>, Seq<char>>(e@),
        },
        forall|samples: Seq<u32>|
            b@ == #[trigger] payload_bytes(PayloadView::Audio { samples }) ==> r is Ok
                && r->Ok_0@ == samples,
{
    postcard::from_bytes::<Vec<[u8; 4]>>(b).map(
        |v| v.into_iter().map(u32::from_le_bytes).collect(),
    ).map_err(|e| e.to_string())
}

/// `postcard::to_allocvec` on an optional text and a number; it writes the parts
/// one after the other
/// and does not fail.
#[verifier::external_body]
fn encode_start(lang_hint: &Option<String>, sample_rate: u32) -> (r: Result<Vec<u8>, String>)
    ensures
        r is Ok,
        r->Ok_0@ == payload_bytes(
            PayloadView::Start { lang_hint: text::opt_text(*lang_hint), sample_rate },
        ),
{
    postcard::to_allocvec(&(lang_hint, sample_rate)).map_err(|e| e.to_string())
}

/// What `postcard::from_bytes` reads as an optional text and a number: the parts,
/// or the message of the error. A length that takes more bytes than it needs is
/// judged by the width of a pointer.
pub uninterp spec fn start_read(b: Seq<u8>) -> Result<(Option<Seq<char>>, u32), Seq<char>>;

/// `postcard::from_bytes` for an optional text and a number. The result is a
/// function of the bytes; it
/// reads back what was written.
#[verifier::external_body]
fn decode_start(b: &[u8]) -> (r: Result<(Option<String>, u32), String>)
    ensures
        match r {
            Ok(v) => start_read(b@) == Ok::<(Option<Seq<char>>, u32), Seq<char>>(
                (text::opt_text(v.0), v.1),
            ),
            Err(e) => start_read(b@) == Err::<(Option<Seq<char>>, u32), Seq<char>>(e@),
        },
        forall|lang_hint: Option<Seq<char>>, sample_rate: u32|
            b@ == #[trigger] payload_bytes(PayloadView::Start { lang_hint, sample_rate }) ==> r is Ok
                && (text::opt_text(r->Ok_0.0), r->Ok_0.1) == (lang_hint, sample_rate),
{
    postcard::from_bytes::<(Option<String>, u32)>(b).map_err(|e| e.to_string())
}

/// `postcard::to_allocvec` on an optional text and a truth value; it writes the
/// parts one after the other
/// and does not fail.
#[verifier::external_body]
fn encode_config(language: &Option<String>, translate: bool) -> (r: Result<Vec<u8>, String>)
    ensures
        r is Ok,
        r->Ok_0@ == payload_bytes(
            PayloadView::Config { language: text::opt_text(*language), translate },
        ),
{
    postcard::to_allocvec(&(language, translate)).map_err(|e| e.to_string())
}

/// What `postcard::from_bytes` reads as an optional text and a truth value: the
/// parts, or the message of the error. A length that takes more bytes than it
/// needs is judged by the width of a pointer.
pub uninterp spec fn config_read(b: Seq<u8>) -> Result<(Option<Seq<char>>, bool), Seq<char>>;

/// `postcard::from_bytes` for an optional text and a truth value. The result is a
/// function of the bytes; it
/// reads back what was written.
#[verifier::external_body]
fn decode_config(b: &[u8]) -> (r: Result<(Option<String>, bool), String>)
    ensures
        match r {
            Ok(v) => config_read(b@) == Ok::<(Option<Seq<char>>, bool), Seq<char>>(
                (text::opt_text(v.0), v.1),
            ),
            Err(e) => config_read(b@) == Err::<(Option<Seq<char>>, bool), Seq<char>>(e@),
        },
        forall|language: Option<Seq<char>>, translate: bool|
            b@ == #[trigger] payload_bytes(PayloadView::Config { language, translate }) ==> r is Ok
                && (text::opt_text(r->Ok_0.0), r->Ok_0.1) == (language, translate),
{
    postcard::from_bytes::<(Option<String>, bool)>(b).map_err(|e| e.to_string())
}

/// `postcard::to_allocvec` on a text, two numbers and a text; it writes the parts
/// one after the other
/// and does not fail.
#[verifier::external_body]
fn encode_partial(t: &str, t0_ms: u32, t1_ms: u32, lang: &str) -> (r: Result<Vec<u8>, String>)
    ensures
        r is Ok,
        r->Ok_0@ == payload_bytes(PayloadView::Partial { text: t@, t0_ms, t1_ms, lang: lang@ }),
{
    postcard::to_allocvec(&(t, t0_ms, t1_ms, lang)).map_err(|e| e.to_string())
}

/// What `postcard::from_bytes` reads as a text, two numbers and a text: the
/// parts, or the message of the error. A length that takes more bytes than it
/// needs is judged by the width of a pointer.
pub uninterp spec fn partial_read(b: Seq<u8>) -> Result<(Seq<char>, u32, u32, Seq<char>), Seq<char>>;

/// `postcard::from_bytes` for a text, two numbers and a text. The result is a
/// function of the bytes; it
/// reads back what was written.
#[verifier::external_body]
fn decode_partial(b: &[u8]) -> (r: Result<(String, u32, u32, String), String>)
    ensures
        match r {
            Ok(v) => partial_read(b@) == Ok::<(Seq<char>, u32, u32, Seq<char>), Seq<char>>(
                (v.0@, v.1, v.2, v.3@),
            ),
            Err(e) => partial_read(b@) == Err::<(Seq<char>, u32, u32, Seq<char>), Seq<char>>(e@),
        },
        forall|t: Seq<char>, t0_ms: u32, t1_ms: u32, lang: Seq<char>|
            b@ == #[trigger] payload_bytes(PayloadView::Partial { text: t, t0_ms, t1_ms, lang }) ==> r is Ok
                && (r->Ok_0.0@, r->Ok_0.1, r->Ok_0.2, r->Ok_0.3@) == (t, t0_ms, t1_ms, lang),
{
    postcard::from_bytes::<(String, u32, u32, String)>(b).map_err(|e| e.to_string())
}

/// `postcard::to_allocvec` on a text, a list of segments as tuples and a text;
/// it writes the parts one after the other and does not fail.
#[verifier::external_body]
fn encode_final(t: &str, segments: &Vec<Segment>, lang: &str) -> (r: Result<Vec<u8>, String>)
    ensures
        r is Ok,
        r->Ok_0@ == payload_bytes(
            PayloadView::Final { text: t@, segments: segments_view(segments@), lang: lang@ },
        ),
{
    let list: Vec<(&String, u32, u32, [u8; 4])> = segments.iter().map(
        |s| (&s.text, s.t0_ms, s.t1_ms, s.no_speech_prob.to_le_bytes()),
    ).collect();
    postcard::to_allocvec(&(t, list, lang)).map_err(|e| e.to_string())
}

/// What `postcard::from_bytes` reads as a text, a list of segments and a text:
/// the parts, or the message of the error. A length that takes more bytes than it
/// needs is judged by the width of a pointer.
pub uninterp spec fn final_read(b: Seq<u8>) -> Result<
    (Seq<char>, Seq<SegmentView>, Seq<char>),
    Seq<char>,
>;

/// `postcard::from_bytes` for a text, a list of segments as tuples and a text. The
/// result is a function of the bytes; it reads back what was written.
#[verifier::external_body]
fn decode_final(b: &[u8]) -> (r: Result<(String, Vec<Segment>, String), String>)
    ensures
        match r {
            Ok(v) => final_read(b@) == Ok::<(Seq<char>, Seq<SegmentView>, Seq<char>), Seq<char>>(
                (v.0@, segments_view(v.1@), v.2@),
            ),
            Err(e) => final_read(b@) == Err::<(Seq<char>, Seq<SegmentView>, Seq<char>), Seq<char>>(
                e@,
            ),
        },
        forall|t: Seq<char>, segments: Seq<SegmentView>, lang: Seq<char>|
            b@ == #[trigger] payload_bytes(PayloadView::Final { text: t, segments, lang }) ==> r
                is Ok && (r->Ok_0.0@, segments_view(r->Ok_0.1@), r->Ok_0.2@) == (t, segments, lang),
{
    let (text, list, lang) = postcard::from_bytes::<
        (String, Vec<(String, u32, u32, [u8; 4])>, String),
    >(b).map_err(|e| e.to_string())?;
    let segments = list.into_iter().map(
        |(text, t0_ms, t1_ms, p)| Segment { text, t0_ms, t1_ms, no_speech_prob: u32::from_le_bytes(p) },
    ).collect();
    Ok((text, segments, lang))
}

/// `postcard::to_allocvec` on a number and a text; it writes the parts one after the other
/// and does not fail.
#[verifier::external_body]
fn encode_error(code: u16, message: &str) -> (r: Result<Vec<u8>, String>)
    ensures
        r is Ok,
        r->Ok_0@ == payload_bytes(PayloadView::Error { code, message: message@ }),
{
    postcard::to_allocvec(&(code, message)).map_err(|e| e.to_string())
}

/// What `postcard::from_bytes` reads as a number and a text: the parts, or the
/// message of the error. A length that takes more bytes than it needs is judged
/// by the width of a pointer.
pub uninterp spec fn error_read(b: Seq<u8>) -> Result<(u16, Seq<char>), Seq<char>>;

/// `postcard::from_bytes` for a number and a text. The result is a function of the bytes; it
/// reads back what was written.
#[verifier::external_body]
fn decode_error(b: &[u8]) -> (r: Result<(u16, String), String>)
    ensures
        match r {
            Ok(v) => error_read(b@) == Ok::<(u16, Seq<char>), Seq<char>>((v.0, v.1@)),
            Err(e) => error_read(b@) == Err::<(u16, Seq<char>), Seq<char>>(e@),
        },
        forall|code: u16, message: Seq<char>|
            b@ == #[trigger] payload_bytes(PayloadView::Error { code, message }) ==> r is Ok
                && (r->Ok_0.0, r->Ok_0.1@) == (code, message),
{
    postcard::from_bytes::<(u16, String)>(b).map_err(|e| e.to_string())
}

/// `postcard::to_allocvec` on two texts; it writes the parts one after the other
/// and does not fail.
#[verifier::external_body]
fn encode_backend(model_id: &str, gpu_backend: &str) -> (r: Result<Vec<u8>, String>)
    ensures
        r is Ok,
        r->Ok_0@ == payload_bytes(
            PayloadView::Backend { model_id: model_id@, gpu_backend: gpu_backend@ },
        ),
{
    postcard::to_allocvec(&(model_id, gpu_backend)).map_err(|e| e.to_string())
}

/// What `postcard::from_bytes` reads as two texts: the parts, or the message of
/// the error. A length that takes more bytes than it needs is judged by the width
/// of a pointer.
pub uninterp spec fn backend_read(b: Seq<u8>) -> Result<(Seq<char>, Seq<char>), Seq<char>>;

/// `postcard::from_bytes` for two texts. The result is a function of the bytes; it
/// reads back what was written.
#[verifier::external_body]
fn decode_backend(b: &[u8]) -> (r: Result<(String, String), String>)
    ensures
        match r {
            Ok(v) => backend_read(b@) == Ok::<(Seq<char>, Seq<char>), Seq<char>>((v.0@, v.1@)),
            Err(e) => backend_read(b@) == Err::<(Seq<char>, Seq<char>), Seq<char>>(e@),
        },
        forall|model_id: Seq<char>, gpu_backend: Seq<char>|
            b@ == #[trigger] payload_bytes(PayloadView::Backend { model_id, gpu_backend }) ==> r is Ok
                && (r->Ok_0.0@, r->Ok_0.1@) == (model_id, gpu_backend),
{
    postcard::from_bytes::<(String, String)>(b).map_err(|e| e.to_string())
}

// ---- Frames -------------------------------------------------------------

/// Why bytes are no frame.
#[derive(Debug, Clone, PartialEq, Eq)]
pub enum CodecError {
    /// There are no bytes.
    EmptyFrame,
    /// No message has this tag.
    UnknownTag(u8),
    /// The bytes after the tag are not the message: the reader's words.
    Postcard(String),
}

/// Why bytes are no frame, as values.
pub enum CodecErrorView {
    EmptyFrame,
    UnknownTag(u8),
    Postcard(Seq<char>),
}

impl View for CodecError {
    type V = CodecErrorView;

    open spec fn view(&self) -> CodecErrorView {
        match *self {
            CodecError::EmptyFrame => CodecErrorView::EmptyFrame,
            CodecError::UnknownTag(b) => CodecErrorView::UnknownTag(b),
            CodecError::Postcard(e) => CodecErrorView::Postcard(e@),
        }
    }
}

/// A digit of a number to the base sixteen.
pub open spec fn hex_digit(d: int) -> char {
    if d < 10 {
        (0x30 + d) as char
    } else {
        (0x61 + d - 10) as char
    }
}

/// The message of an error.
pub open spec fn codec_error_text(e: CodecErrorView) -> Seq<char> {
    match e {
        CodecErrorView::EmptyFrame => "frame is empty"@,
        CodecErrorView::UnknownTag(b) => "unknown tag byte 0x"@.push(
            hex_digit(b as int / 16),
        ).push(hex_digit(b as int % 16)),
        CodecErrorView::Postcard(m) => "postcard decode failed: "@ + m,
    }
}

/// A digit of a number to the base sixteen.
pub fn to_hex_digit(d: u8) -> (r: char)
    requires
        d < 16,
    ensures
        r == hex_digit(d as int),
{
    if d < 10 {
        (0x30 + d) as char
    } else {
        (0x61 + (d - 10)) as char
    }
}

impl CodecError {
    /// The message of the error.
    pub fn message(&self) -> (r: String)
        ensures
            r@ == codec_error_text(self@),
    {
        match self {
            CodecError::EmptyFrame => text::own("frame is empty"),
            CodecError::UnknownTag(b) => {
                let mut r = text::own("unknown tag byte 0x");
                r.push(to_hex_digit(*b / 16));
                r.push(to_hex_digit(*b % 16));
                r
            },
            CodecError::Postcard(m) => text::own("postcard decode failed: ").concat(m.as_str()),
        }
    }
}

/// What the bytes after a tag are.
pub open spec fn read_tagged(tag: Tag, tail: Seq<u8>) -> Result<PayloadView, Seq<char>> {
    match tag {
        Tag::AudioFrame => match audio_read(tail) {
            Ok(samples) => Ok(PayloadView::Audio { samples }),
            Err(e) => Err(e),
        },
        Tag::StartSession => match start_read(tail) {
            Ok(v) => Ok(PayloadView::Start { lang_hint: v.0, sample_rate: v.1 }),
            Err(e) => Err(e),
        },
        Tag::StopSession => Ok(PayloadView::Stop),
        Tag::Config => match config_read(tail) {
            Ok(v) => Ok(PayloadView::Config { language: v.0, translate: v.1 }),
            Err(e) => Err(e),
        },
        Tag::PartialTranscript => match partial_read(tail) {
            Ok(v) => Ok(
                PayloadView::Partial { text: v.0, t0_ms: v.1, t1_ms: v.2, lang: v.3 },
            ),
            Err(e) => Err(e),
        },
        Tag::FinalTranscript => match final_read(tail) {
            Ok(v) => Ok(PayloadView::Final { text: v.0, segments: v.1, lang: v.2 }),
            Err(e) => Err(e),
        },
        Tag::Error => match error_read(tail) {
            Ok(v) => Ok(PayloadView::Error { code: v.0, message: v.1 }),
            Err(e) => Err(e),
        },
        Tag::BackendInfo => match backend_read(tail) {
            Ok(v) => Ok(PayloadView::Backend { model_id: v.0, gpu_backend: v.1 }),
            Err(e) => Err(e),
        },
    }
}

impl Payload {
    /// Read the message that the tag announces.
    fn from_tagged(tag: Tag, tail: &[u8]) -> (r: Result<Self, CodecError>)
        ensures
            match r {
                Ok(p) => read_tagged(tag, tail@) == Ok::<PayloadView, Seq<char>>(p@),
                Err(e) => e is Postcard && read_tagged(tag, tail@) == Err::<
                    PayloadView,
                    Seq<char>,
                >(e->Postcard_0@),
            },
            forall|p: PayloadView|
                tag_of(p) == tag && tail@ == #[trigger] payload_bytes(p) ==> r is Ok && r->Ok_0@
                    == p,
    {
        let r = match tag {
            Tag::AudioFrame => match decode_audio(tail) {
                Ok(samples) => Ok(Payload::Audio(AudioFrame { samples })),
                Err(e) => Err(CodecError::Postcard(e)),
            },
            Tag::StartSession => match decode_start(tail) {
                Ok(v) => Ok(Payload::Start(StartSession { lang_hint: v.0, sample_rate: v.1 })),
                Err(e) => Err(CodecError::Postcard(e)),
            },
            Tag::StopSession => Ok(Payload::Stop(StopSession)),
            Tag::Config => match decode_config(tail) {
                Ok(v) => Ok(Payload::Config(Config { language: v.0, translate: v.1 })),
                Err(e) => Err(CodecError::Postcard(e)),
            },
            Tag::PartialTranscript => match decode_partial(tail) {
                Ok(v) => Ok(
                    Payload::Partial(
                        PartialTranscript { text: v.0, t0_ms: v.1, t1_ms: v.2, lang: v.3 },
                    ),
                ),
                Err(e) => Err(CodecError::Postcard(e)),
            },
            Tag::FinalTranscript => match decode_final(tail) {
                Ok(v) => Ok(
                    Payload::Final(FinalTranscript { text: v.0, segments: v.1, lang: v.2 }),
                ),
                Err(e) => Err(CodecError::Postcard(e)),
            },
            Tag::Error => match decode_error(tail) {
                Ok(v) => Ok(Payload::Error(ErrorMessage { code: v.0, message: v.1 })),
                Err(e) => Err(CodecError::Postcard(e)),
            },
            Tag::BackendInfo => match decode_backend(tail) {
                Ok(v) => Ok(Payload::Backend(BackendInfo { model_id: v.0, gpu_backend: v.1 })),
                Err(e) => Err(CodecError::Postcard(e)),
            },
        };
        proof {
            assert forall|p: PayloadView|
                tag_of(p) == tag && tail@ == #[trigger] payload_bytes(p) implies r is Ok
                && r->Ok_0@ == p by {
                match p {
                    PayloadView::Audio { samples } => {
                        assert(tail@ == payload_bytes(PayloadView::Audio { samples }));
                    },
                    PayloadView::Start { lang_hint, sample_rate } => {
                        assert(tail@ == payload_bytes(
                            PayloadView::Start { lang_hint, sample_rate },
                        ));
                    },
                    PayloadView::Stop => {},
                    PayloadView::Config { language, translate } => {
                        assert(tail@ == payload_bytes(PayloadView::Config { language, translate }));
                    },
                    PayloadView::Partial { text: t, t0_ms, t1_ms, lang } => {
                        assert(tail@ == payload_bytes(
                            PayloadView::Partial { text: t, t0_ms, t1_ms, lang },
                        ));
                    },
                    PayloadView::Final { text: t, segments, lang } => {
                        assert(tail@ == payload_bytes(
                            PayloadView::Final { text: t, segments, lang },
                        ));
                    },
                    PayloadView::Error { code, message } => {
                        assert(tail@ == payload_bytes(PayloadView::Error { code, message }));
                    },
                    PayloadView::Backend { model_id, gpu_backend } => {
                        assert(tail@ == payload_bytes(
                            PayloadView::Backend { model_id, gpu_backend },
                        ));
                    },
                }
            }
        }
        r
    }
}

/// The frame of a message: its tag, then its bytes.
pub fn encode_frame(payload: &Payload) -> (r: Result<Vec<u8>, CodecError>)
    ensures
        r is Ok,
        r->Ok_0@ == frame_bytes(payload@),
{
    let body = match payload {
        Payload::Audio(p) => encode_audio(&p.samples),
        Payload::Start(p) => encode_start(&p.lang_hint, p.sample_rate),
        Payload::Stop(_) => Ok(Vec::new()),
        Payload::Config(p) => encode_config(&p.language, p.translate),
        Payload::Partial(p) => encode_partial(p.text.as_str(), p.t0_ms, p.t1_ms, p.lang.as_str()),
        Payload::Final(p) => encode_final(p.text.as_str(), &p.segments, p.lang.as_str()),
        Payload::Error(p) => encode_error(p.code, p.message.as_str()),
        Payload::Backend(p) => encode_backend(p.model_id.as_str(), p.gpu_backend.as_str()),
    };
    match body {
        Ok(b) => {
            let mut buf = b;
            let ghost rest = buf@;
            buf.insert(0, payload.tag().to_u8());
            assert(buf@ == frame_bytes(payload@));
            Ok(buf)
        },
        Err(e) => Err(CodecError::Postcard(e)),
    }
}

/// `From<A> for A`: the argument comes back unchanged.
pub assume_specification<A>[ <A as std::convert::From<A>>::from ](a: A) -> (r: A)
    ensures
        r == a,
;

/// The frame of what becomes a message.
pub fn encode<T: Into<Payload>>(payload: T) -> (r: Result<Vec<u8>, CodecError>)
    ensures
        r is Ok,
        exists|p: Payload|
            #[trigger] call_ensures(T::into, (payload,), p) && r->Ok_0@ == frame_bytes(p@),
        <T as vstd::std_specs::convert::IntoSpec<Payload>>::obeys_into_spec() ==> r->Ok_0@
            == frame_bytes(
            vstd::std_specs::convert::IntoSpec::<Payload>::into_spec(payload)@,
        ),
{
    let p: Payload = payload.into();
    encode_frame(&p)
}

/// The message in a frame. The tag is looked at first: bytes with a tag that no
/// message has are refused whatever follows. Every frame that `encode_frame`
/// makes is read back as the message it was made of.
pub fn decode_frame(bytes: &[u8]) -> (r: Result<Payload, CodecError>)
    ensures
        bytes@.len() == 0 ==> r is Err && r->Err_0@ == CodecErrorView::EmptyFrame,
        bytes@.len() > 0 && (forall|t: Tag| #[trigger] t.byte() != bytes@[0]) ==> r is Err
            && r->Err_0@ == CodecErrorView::UnknownTag(bytes@[0]),
        forall|t: Tag|
            bytes@.len() > 0 && #[trigger] t.byte() == bytes@[0] ==> match read_tagged(
                t,
                bytes@.subrange(1, bytes@.len() as int),
            ) {
                Ok(p) => r is Ok && r->Ok_0@ == p,
                Err(e) => r is Err && r->Err_0@ == CodecErrorView::Postcard(e),
            },
        forall|p: PayloadView| bytes@ == #[trigger] frame_bytes(p) ==> r is Ok && r->Ok_0@ == p,
{
    if bytes.len() == 0 {
        return Err(CodecError::EmptyFrame);
    }
    let head = bytes[0];
    let tag = match Tag::from_u8(head) {
        Some(t) => t,
        None => {
            proof {
                assert forall|p: PayloadView| bytes@ == #[trigger] frame_bytes(p) implies false by {
                    assert(bytes@[0] == tag_of(p).byte());
                }
            }
            return Err(CodecError::UnknownTag(head));
        },
    };
    let (_, tail) = bytes.split_at(1);
    let r = Payload::from_tagged(tag, tail);
    proof {
        assert forall|t: Tag| #[trigger] t.byte() == bytes@[0] implies t == tag by {
        }
        assert forall|p: PayloadView| bytes@ == #[trigger] frame_bytes(p) implies r is Ok
            && r->Ok_0@ == p by {
            assert(bytes@[0] == tag_of(p).byte());
            assert(tail@ == payload_bytes(p));
        }
    }
    r
}

// ---- Laws ---------------------------------------------------------------

/// The first byte of a frame is that of its message, as clients know it; what follows
/// is the message.
pub proof fn law_frame_is_a_byte_and_a_message(p: PayloadView)
    ensures
        frame_bytes(p).len() == 1 + payload_bytes(p).len(),
        frame_bytes(p).skip(1) == payload_bytes(p),
        p is Audio ==> frame_bytes(p)[0] == 0x01,
        p is Start ==> frame_bytes(p)[0] == 0x10,
        p is Stop ==> frame_bytes(p)[0] == 0x11 && frame_bytes(p).len() == 1,
        p is Config ==> frame_bytes(p)[0] == 0x12,
        p is Partial ==> frame_bytes(p)[0] == 0x20,
        p is Final ==> frame_bytes(p)[0] == 0x21,
        p is Error ==> frame_bytes(p)[0] == 0x30,
        p is Backend ==> frame_bytes(p)[0] == 0x31,
{
    assert(frame_bytes(p).skip(1) =~= payload_bytes(p));
}

/// What a reader gives, a message carries: each part in its own place.
pub proof fn law_message_holds_what_was_read(b: Seq<u8>)
    ensures
        audio_read(b) is Ok ==> read_tagged(Tag::AudioFrame, b) == Ok::<_, Seq<char>>(
            PayloadView::Audio { samples: audio_read(b)->Ok_0 },
        ),
        start_read(b) is Ok ==> read_tagged(Tag::StartSession, b) == Ok::<_, Seq<char>>(
            PayloadView::Start {
                lang_hint: start_read(b)->Ok_0.0,
                sample_rate: start_read(b)->Ok_0.1,
            },
        ),
        read_tagged(Tag::StopSession, b) == Ok::<_, Seq<char>>(PayloadView::Stop),
        config_read(b) is Ok ==> read_tagged(Tag::Config, b) == Ok::<_, Seq<char>>(
            PayloadView::Config {
                language: config_read(b)->Ok_0.0,
                translate: config_read(b)->Ok_0.1,
            },
        ),
        partial_read(b) is Ok ==> read_tagged(Tag::PartialTranscript, b) == Ok::<_, Seq<char>>(
            PayloadView::Partial {
                text: partial_read(b)->Ok_0.0,
                t0_ms: partial_read(b)->Ok_0.1,
                t1_ms: partial_read(b)->Ok_0.2,
                lang: partial_read(b)->Ok_0.3,
            },
        ),
        final_read(b) is Ok ==> read_tagged(Tag::FinalTranscript, b) == Ok::<_, Seq<char>>(
            PayloadView::Final {
                text: final_read(b)->Ok_0.0,
                segments: final_read(b)->Ok_0.1,
                lang: final_read(b)->Ok_0.2,
            },
        ),
        error_read(b) is Ok ==> read_tagged(Tag::Error, b) == Ok::<_, Seq<char>>(
            PayloadView::Error { code: error_read(b)->Ok_0.0, message: error_read(b)->Ok_0.1 },
        ),
        backend_read(b) is Ok ==> read_tagged(Tag::BackendInfo, b) == Ok::<_, Seq<char>>(
            PayloadView::Backend {
                model_id: backend_read(b)->Ok_0.0,
                gpu_backend: backend_read(b)->Ok_0.1,
            },
        ),
        audio_read(b) is Err ==> read_tagged(Tag::AudioFrame, b) is Err,
        start_read(b) is Err ==> read_tagged(Tag::StartSession, b) is Err,
        config_read(b) is Err ==> read_tagged(Tag::Config, b) is Err,
{
}

/// What is said of a frame that is none: that it is empty, which byte it began with,
/// or what the reader said.
pub proof fn law_codec_errors_say_what_was_wrong(b: u8, m: Seq<char>)
    ensures
        codec_error_text(CodecErrorView::EmptyFrame) == "frame is empty"@,
        codec_error_text(CodecErrorView::Postcard(m)) == "postcard decode failed: "@ + m,
        codec_error_text(CodecErrorView::UnknownTag(b)).take("unknown tag byte 0x"@.len() as int)
            == "unknown tag byte 0x"@,
        codec_error_text(CodecErrorView::UnknownTag(b)).len() == "unknown tag byte 0x"@.len() + 2,
{
    let t = codec_error_text(CodecErrorView::UnknownTag(b));
    assert(t.take("unknown tag byte 0x"@.len() as int) =~= "unknown tag byte 0x"@);
}

/// The bytes of a number of four bytes, the lowest first, are that number.
pub proof fn law_low_byte_comes_first(b: u32)
    ensures
        le_bytes(b).len() == 4,
        le_bytes(b)[0] as int + 256 * le_bytes(b)[1] + 65536 * le_bytes(b)[2] + 16777216
            * le_bytes(b)[3] == b,
{
}

/// A number is written in groups of seven bits, the lowest first; all but the last are
/// marked.
pub proof fn law_groups_of_seven_bits(n: nat)
    ensures
        n < 128 ==> varint(n) == seq![n as u8],
        n >= 128 ==> varint(n)[0] == 128 + n % 128 && varint(n).skip(1) == varint(n / 128),
{
    if n >= 128 {
        assert(varint(n).skip(1) =~= varint(n / 128));
    }
}

/// Each part of a message is written in its place: a text after its length, what may be
/// missing after a mark, a list after its length, a switch as one byte.
pub proof fn law_parts_are_written_in_place(
    samples: Seq<u32>,
    x: u32,
    t: Seq<char>,
    u: Seq<char>,
    code: u16,
    n: u32,
    k: u32,
)
    ensures
        payload_bytes(PayloadView::Audio { samples: Seq::empty() }) == varint(0),
        sample_bytes(samples.push(x)) == sample_bytes(samples) + le_bytes(x),
        payload_bytes(PayloadView::Audio { samples }) == varint(samples.len()) + sample_bytes(
            samples,
        ),
        payload_bytes(PayloadView::Start { lang_hint: None, sample_rate: n }) == seq![0u8]
            + varint(n as nat),
        payload_bytes(PayloadView::Start { lang_hint: Some(t), sample_rate: n }) == seq![1u8] + (
        varint(text::utf8(t).len()) + text::utf8(t)) + varint(n as nat),
        payload_bytes(PayloadView::Config { language: None, translate: true }) == seq![0u8, 1u8],
        payload_bytes(PayloadView::Config { language: None, translate: false }) == seq![0u8, 0u8],
        payload_bytes(PayloadView::Error { code, message: t }) == varint(code as nat) + (varint(
            text::utf8(t).len(),
        ) + text::utf8(t)),
        payload_bytes(PayloadView::Backend { model_id: t, gpu_backend: u }) == (varint(
            text::utf8(t).len(),
        ) + text::utf8(t)) + (varint(text::utf8(u).len()) + text::utf8(u)),
        payload_bytes(PayloadView::Partial { text: t, t0_ms: n, t1_ms: k, lang: u }) == (varint(
            text::utf8(t).len(),
        ) + text::utf8(t)) + varint(n as nat) + varint(k as nat) + (varint(text::utf8(u).len())
            + text::utf8(u)),
{
    assert(samples.push(x).drop_last() =~= samples);
    assert(payload_bytes(PayloadView::Audio { samples: Seq::empty() }) =~= varint(0));
    assert(payload_bytes(PayloadView::Config { language: None, translate: true }) =~= seq![
        0u8,
        1u8,
    ]);
    assert(payload_bytes(PayloadView::Config { language: None, translate: false }) =~= seq![
        0u8,
        0u8,
    ]);
}

/// A digit to the base sixteen is the one at its place in the row of them, and an
/// unknown tag is told by its two digits.
pub proof fn law_hex_digits(d: int, tag: u8)
    requires
        0 <= d < 16,
    ensures
        hex_digit(d) == "0123456789abcdef"@[d],
        codec_error_text(CodecErrorView::UnknownTag(tag)) == "unknown tag byte 0x"@
            + seq!["0123456789abcdef"@[tag as int / 16], "0123456789abcdef"@[tag as int % 16]],
{
    reveal_strlit("0123456789abcdef");
    let row = "0123456789abcdef"@;
    assert(row.len() == 16);
    assert(row[0] == '0' && row[1] == '1' && row[2] == '2' && row[3] == '3' && row[4] == '4'
        && row[5] == '5' && row[6] == '6' && row[7] == '7' && row[8] == '8' && row[9] == '9'
        && row[10] == 'a' && row[11] == 'b' && row[12] == 'c' && row[13] == 'd' && row[14] == 'e'
        && row[15] == 'f');
    assert forall|k: int| 0 <= k < 16 implies hex_digit(k) == #[trigger] row[k] by {
        if k < 8 {
            if k < 4 {
                assert(k == 0 || k == 1 || k == 2 || k == 3);
            } else {
                assert(k == 4 || k == 5 || k == 6 || k == 7);
            }
        } else {
            if k < 12 {
                assert(k == 8 || k == 9 || k == 10 || k == 11);
            } else {
                assert(k == 12 || k == 13 || k == 14 || k == 15);
            }
        }
    }
    let high = tag as int / 16;
    let low = tag as int % 16;
    assert(0 <= high < 16 && 0 <= low < 16);
    assert(codec_error_text(CodecErrorView::UnknownTag(tag)) =~= "unknown tag byte 0x"@ + seq![
        row[high],
        row[low],
    ]);
}

} // verus!
