//! One WebSocket connection.
//!
//! Each frame of a client takes a token of its address, is decoded and checked,
//! and then changes the session's state or becomes a request to transcribe. What
//! the server makes of an event is decided here; reading and sending are the
//! caller's part.

use vstd::prelude::*;

use crate::backend::{InferRequest, RequestView};
use crate::config::LimitsConfig;
use crate::error_code;
use crate::http::{BodyType, Caching, Reply, ReplyView};
use crate::net::Ip;
use crate::proto;
use crate::proto::{BackendInfo, CodecError, CodecErrorView, ErrorMessage, Payload, PayloadView};
use crate::rate_limit;
use crate::rate_limit::{RateLimitError, RateLimiter};
use crate::session;
use crate::session::{OutboundMessage, SessionMap, SessionView};
use crate::text;
use crate::validation;
use crate::validation::{FrameError, FrameErrorView};

verus! {

// ---- Frames of the client -----------------------------------------------

/// Why a frame has no effect.
#[derive(Debug, Clone, PartialEq, Eq)]
pub enum InboundError {
    /// It is no frame.
    Codec(CodecError),
    /// The client ends its session.
    ClientStop,
    /// Nobody transcribes.
    WorkerUnavailable,
    /// It says what it may not.
    Validation(FrameError),
}

/// Why a frame has no effect, as values.
pub enum InboundErrorView {
    Codec(CodecErrorView),
    ClientStop,
    WorkerUnavailable,
    Validation(FrameErrorView),
}

impl View for InboundError {
    type V = InboundErrorView;

    open spec fn view(&self) -> InboundErrorView {
        match *self {
            InboundError::Codec(e) => InboundErrorView::Codec(e@),
            InboundError::ClientStop => InboundErrorView::ClientStop,
            InboundError::WorkerUnavailable => InboundErrorView::WorkerUnavailable,
            InboundError::Validation(e) => InboundErrorView::Validation(e@),
        }
    }
}

/// The message of an error.
pub open spec fn inbound_error_text(e: InboundErrorView) -> Seq<char> {
    match e {
        InboundErrorView::Codec(c) => "codec: "@ + proto::codec_error_text(c),
        InboundErrorView::ClientStop => "client requested stop"@,
        InboundErrorView::WorkerUnavailable => "worker queue closed"@,
        InboundErrorView::Validation(f) => validation::frame_error_text(f),
    }
}

impl InboundError {
    /// The message of the error.
    pub fn message(&self) -> (r: String)
        ensures
            r@ == inbound_error_text(self@),
    {
        match self {
            InboundError::Codec(c) => text::own("codec: ").concat(c.message().as_str()),
            InboundError::ClientStop => text::own("client requested stop"),
            InboundError::WorkerUnavailable => text::own("worker queue closed"),
            InboundError::Validation(f) => f.message(),
        }
    }
}

/// A language code in small letters.
pub open spec fn small_lang(l: Option<Seq<char>>) -> Option<Seq<char>> {
    match l {
        Some(s) => Some(text::lower(s)),
        None => None,
    }
}

/// A language code in small letters.
fn normalize_lang_hint(hint: Option<String>) -> (r: Option<String>)
    ensures
        text::opt_text(r) == small_lang(text::opt_text(hint)),
{
    match hint {
        Some(s) => Some(text::to_lower(s.as_str())),
        None => None,
    }
}

/// What a message does to the sessions: the client's own state, when its session
/// is there, and nothing else.
pub open spec fn sessions_after(
    m: Map<u128, SessionView>,
    limits: LimitsConfig,
    id: u128,
    p: PayloadView,
    now_ms: u64,
) -> Map<u128, SessionView> {
    if !m.dom().contains(id) || payload_error(limits, p) is Some {
        m
    } else {
        match p {
            PayloadView::Start { lang_hint, .. } => m.insert(
                id,
                SessionView {
                    language: small_lang(lang_hint),
                    last_activity_ms: now_ms,
                    ..m[id]
                },
            ),
            PayloadView::Config { language, translate } => m.insert(
                id,
                SessionView {
                    language: small_lang(language),
                    translate,
                    last_activity_ms: now_ms,
                    ..m[id]
                },
            ),
            PayloadView::Audio { .. } => m.insert(
                id,
                SessionView { last_activity_ms: now_ms, ..m[id] },
            ),
            _ => m,
        }
    }
}

/// Why a message has no effect.
pub open spec fn payload_error(limits: LimitsConfig, p: PayloadView) -> Option<InboundErrorView> {
    match p {
        PayloadView::Start { lang_hint, sample_rate } => match validation::start_error(
            limits,
            sample_rate,
            lang_hint,
        ) {
            Some(e) => Some(InboundErrorView::Validation(e)),
            None => None,
        },
        PayloadView::Stop => Some(InboundErrorView::ClientStop),
        PayloadView::Config { language, .. } => match validation::config_error(limits, language) {
            Some(e) => Some(InboundErrorView::Validation(e)),
            None => None,
        },
        PayloadView::Audio { samples } => match validation::audio_error(
            limits,
            samples.len() as int,
        ) {
            Some(e) => Some(InboundErrorView::Validation(e)),
            None => None,
        },
        _ => None,
    }
}

/// The request that a message becomes: audio of a session that is there, with the
/// language and the translation that the session has.
pub open spec fn request_of(
    m: Map<u128, SessionView>,
    limits: LimitsConfig,
    id: u128,
    p: PayloadView,
) -> Option<RequestView> {
    match p {
        PayloadView::Audio { samples } => if m.dom().contains(id) && payload_error(limits, p)
            is None {
            Some(
                RequestView {
                    session_id: id,
                    samples,
                    language: m[id].language,
                    translate: m[id].translate,
                },
            )
        } else {
            None
        },
        _ => None,
    }
}

/// The view of an optional request.
pub open spec fn opt_request(o: Option<InferRequest>) -> Option<RequestView> {
    match o {
        Some(q) => Some(q@),
        None => None,
    }
}

/// Take a message of the client `id`: it changes the session's state or becomes a
/// request. Messages that only the server sends are passed over.
pub fn handle_payload(
    limits: &LimitsConfig,
    map: &mut SessionMap,
    id: u128,
    payload: Payload,
    now_ms: u64,
) -> (r: Result<Option<InferRequest>, InboundError>)
    ensures
        final(map)@ == sessions_after(old(map)@, *limits, id, payload@, now_ms),
        payload is Stop ==> r is Err && r->Err_0 is ClientStop,
        payload is Start && r is Ok && old(map)@.dom().contains(id) ==> final(map)@[id].translate
            == old(map)@[id].translate && final(map)@[id].last_activity_ms == now_ms,
        payload is Config && r is Ok && old(map)@.dom().contains(id) ==> final(map)@[id].translate
            == payload->Config_0.translate && final(map)@[id].last_activity_ms == now_ms,
        payload is Audio && r is Ok && old(map)@.dom().contains(id) ==> r->Ok_0 is Some
            && r->Ok_0->0.samples@ == payload->Audio_0.samples@ && r->Ok_0->0.translate == old(
            map,
        )@[id].translate && final(map)@[id].language == old(map)@[id].language,
        r is Ok && r->Ok_0 is Some ==> payload is Audio && r->Ok_0->0.session_id == id,
        match payload_error(*limits, payload@) {
            Some(e) => r is Err && r->Err_0@ == e,
            None => r is Ok && opt_request(r->Ok_0) == request_of(
                old(map)@,
                *limits,
                id,
                payload@,
            ),
        },
{
    match payload {
        Payload::Start(start) => {
            let hint: Option<&str> = match &start.lang_hint {
                Some(s) => Some(s.as_str()),
                None => None,
            };
            match FrameError::validate_start(limits, start.sample_rate, hint) {
                Ok(_) => {},
                Err(e) => {
                    return Err(InboundError::Validation(e));
                },
            }
            match map.get(id) {
                Some(s) => {
                    let mut s = s;
                    s.touch(now_ms);
                    s.set_language(normalize_lang_hint(start.lang_hint));
                    map.put(id, s);
                },
                None => {},
            }
            Ok(None)
        },
        Payload::Stop(_) => Err(InboundError::ClientStop),
        Payload::Config(cfg) => {
            let lang: Option<&str> = match &cfg.language {
                Some(s) => Some(s.as_str()),
                None => None,
            };
            match FrameError::validate_config(limits, lang) {
                Ok(_) => {},
                Err(e) => {
                    return Err(InboundError::Validation(e));
                },
            }
            match map.get(id) {
                Some(s) => {
                    let mut s = s;
                    s.touch(now_ms);
                    s.set_language(normalize_lang_hint(cfg.language));
                    s.set_translate(cfg.translate);
                    map.put(id, s);
                },
                None => {},
            }
            Ok(None)
        },
        Payload::Audio(audio) => {
            match FrameError::validate_audio(limits, audio.samples.as_slice()) {
                Ok(_) => {},
                Err(e) => {
                    return Err(InboundError::Validation(e));
                },
            }
            match map.get(id) {
                Some(s) => {
                    let mut s = s;
                    s.touch(now_ms);
                    let language = s.language();
                    let translate = s.translate();
                    map.put(id, s);
                    Ok(
                        Some(
                            InferRequest {
                                session_id: id,
                                samples: audio.samples,
                                language,
                                translate,
                            },
                        ),
                    )
                },
                None => Ok(None),
            }
        },
        _ => Ok(None),
    }
}

/// What decoding a frame gave, as values.
pub open spec fn decoded(bytes: Seq<u8>) -> Result<PayloadView, CodecErrorView> {
    if bytes.len() == 0 {
        Err(CodecErrorView::EmptyFrame)
    } else if exists|t: proto::Tag| t.byte() == bytes[0] {
        let tag = choose|t: proto::Tag| t.byte() == bytes[0];
        match proto::read_tagged(tag, bytes.subrange(1, bytes.len() as int)) {
            Ok(p) => Ok(p),
            Err(e) => Err(CodecErrorView::Postcard(e)),
        }
    } else {
        Err(CodecErrorView::UnknownTag(bytes[0]))
    }
}

/// Take a frame of the client `id`.
pub fn handle_inbound(
    limits: &LimitsConfig,
    map: &mut SessionMap,
    id: u128,
    bytes: &[u8],
    now_ms: u64,
) -> (r: Result<Option<InferRequest>, InboundError>)
    ensures
        match decoded(bytes@) {
            Err(e) => r is Err && r->Err_0@ == InboundErrorView::Codec(e) && final(map)@ == old(
                map,
            )@,
            Ok(p) => {
                &&& final(map)@ == sessions_after(old(map)@, *limits, id, p, now_ms)
                &&& match payload_error(*limits, p) {
                    Some(e) => r is Err && r->Err_0@ == e,
                    None => r is Ok && opt_request(r->Ok_0) == request_of(
                        old(map)@,
                        *limits,
                        id,
                        p,
                    ),
                }
            },
        },
{
    let result = proto::decode_frame(bytes);
    proof {
        if bytes@.len() > 0 {
            if exists|t: proto::Tag| t.byte() == bytes@[0] {
                let tag = choose|t: proto::Tag| t.byte() == bytes@[0];
                assert(tag.byte() == bytes@[0]);
            } else {
                assert forall|t: proto::Tag| #[trigger] t.byte() != bytes@[0] by {
                }
            }
        }
    }
    match result {
        Err(e) => Err(InboundError::Codec(e)),
        Ok(p) => handle_payload(limits, map, id, p, now_ms),
    }
}

// ---- The connection -----------------------------------------------------

/// What has happened on a connection besides a frame of the client.
#[derive(Debug, Clone, PartialEq, Eq)]
pub enum Signal {
    /// The client closes.
    ClientClose,
    /// A ping or a pong.
    KeepAlive,
    /// A text, which the protocol does not have.
    TextFrame,
    /// Reading failed.
    ReadError,
    /// The client is gone.
    StreamEnded,
    /// The server has something for the client; none when nobody will send more.
    Outbound(Option<OutboundMessage>),
}

/// What is to be sent.
#[derive(Debug, Clone, PartialEq, Eq)]
pub enum WireOut {
    /// A binary message.
    Binary(Vec<u8>),
    /// A close message, with a code and a reason where one is given.
    Close(Option<(u16, String)>),
}

/// What is to be sent, as values.
pub enum WireOutView {
    Binary(Seq<u8>),
    Close(Option<(u16, Seq<char>)>),
}

impl View for WireOut {
    type V = WireOutView;

    open spec fn view(&self) -> WireOutView {
        match *self {
            WireOut::Binary(b) => WireOutView::Binary(b@),
            WireOut::Close(c) => WireOutView::Close(
                match c {
                    Some(x) => Some((x.0, x.1@)),
                    None => None,
                },
            ),
        }
    }
}

/// The views of what is to be sent.
pub open spec fn wires_view(s: Seq<WireOut>) -> Seq<WireOutView> {
    s.map_values(|w: WireOut| w@)
}

/// What the connection does next.
#[derive(Debug, Clone, PartialEq, Eq)]
pub struct ConnectionStep {
    /// What is sent, in order.
    pub send: Vec<WireOut>,
    /// What is handed to the worker.
    pub enqueue: Option<InferRequest>,
    /// Whether the connection ends here.
    pub done: bool,
}

/// What the connection does next, as values.
pub struct StepView {
    pub send: Seq<WireOutView>,
    pub enqueue: Option<RequestView>,
    pub done: bool,
}

impl View for ConnectionStep {
    type V = StepView;

    open spec fn view(&self) -> StepView {
        StepView {
            send: wires_view(self.send@),
            enqueue: opt_request(self.enqueue),
            done: self.done,
        }
    }
}

/// The code of a close for a broken rule.
pub const POLICY_CLOSE: u16 = 1008;

/// The frame that reports an error.
pub open spec fn error_frame(message: Seq<char>) -> Seq<u8> {
    proto::frame_bytes(PayloadView::Error { code: error_code::INVALID_FRAME, message })
}

/// The frame that reports an error.
fn make_error_frame(message: String) -> (r: Vec<u8>)
    ensures
        r@ == error_frame(message@),
{
    match proto::encode(ErrorMessage { code: error_code::INVALID_FRAME, message }) {
        Ok(b) => b,
        Err(_) => Vec::new(),
    }
}

/// Nothing is done.
pub open spec fn no_step() -> StepView {
    StepView { send: Seq::empty(), enqueue: None, done: false }
}

/// The connection ends without a word.
pub open spec fn end_step() -> StepView {
    StepView { send: Seq::empty(), enqueue: None, done: true }
}

/// What a refusal by the rate limit does: the client is told and cut off.
pub open spec fn limited_step(message: Seq<char>) -> StepView {
    StepView {
        send: seq![
            WireOutView::Binary(error_frame(message)),
            WireOutView::Close(Some((POLICY_CLOSE, "rate limit exceeded"@))),
        ],
        enqueue: None,
        done: true,
    }
}

/// What the result of a frame does: a request is handed on, a stop ends the
/// connection, any other error is reported and the connection goes on.
pub open spec fn frame_step(
    error: Option<InboundErrorView>,
    request: Option<RequestView>,
) -> StepView {
    match error {
        None => StepView { send: Seq::empty(), enqueue: request, done: false },
        Some(InboundErrorView::ClientStop) => end_step(),
        Some(e) => StepView {
            send: seq![WireOutView::Binary(error_frame(inbound_error_text(e)))],
            enqueue: None,
            done: false,
        },
    }
}

/// The frame that is sent when a connection opens: which model and backend are in
/// use.
pub fn opening_frame(model_id: &str, backend_name: &str) -> (r: Vec<u8>)
    ensures
        r@ == proto::frame_bytes(
            PayloadView::Backend { model_id: model_id@, gpu_backend: backend_name@ },
        ),
{
    let info = BackendInfo {
        model_id: text::own(model_id),
        gpu_backend: text::own(backend_name),
    };
    match proto::encode(info) {
        Ok(b) => b,
        Err(_) => Vec::new(),
    }
}

/// An empty step.
fn quiet(done: bool) -> (r: ConnectionStep)
    ensures
        r@ == (StepView { send: Seq::empty(), enqueue: None, done }),
{
    let r = ConnectionStep { send: Vec::new(), enqueue: None, done };
    assert(r@.send =~= Seq::<WireOutView>::empty());
    r
}

/// A step that reports an error.
fn report(message: String) -> (r: ConnectionStep)
    ensures
        r@ == (StepView {
            send: seq![WireOutView::Binary(error_frame(message@))],
            enqueue: None,
            done: false,
        }),
{
    let ghost m = message@;
    let mut send: Vec<WireOut> = Vec::new();
    send.push(WireOut::Binary(make_error_frame(message)));
    let r = ConnectionStep { send, enqueue: None, done: false };
    assert(r@.send =~= seq![WireOutView::Binary(error_frame(m))]);
    r
}

/// What the connection does about the result of a frame.
pub fn step_for(result: Result<Option<InferRequest>, InboundError>) -> (r: ConnectionStep)
    ensures
        r@ == match result {
            Ok(q) => frame_step(None, opt_request(q)),
            Err(e) => frame_step(Some(e@), None),
        },
{
    match result {
        Ok(q) => {
            let r = ConnectionStep { send: Vec::new(), enqueue: q, done: false };
            assert(r@.send =~= Seq::<WireOutView>::empty());
            r
        },
        Err(InboundError::ClientStop) => quiet(true),
        Err(e) => report(e.message()),
    }
}

/// A binary message has come from the client `id` at `peer`. It takes a token of
/// its address; without one the client is cut off. Else the frame is taken.
pub fn on_binary(
    limiter: &mut RateLimiter,
    limits: &LimitsConfig,
    map: &mut SessionMap,
    id: u128,
    peer: Option<Ip>,
    bytes: &[u8],
    now_ns: u64,
    now_ms: u64,
) -> (r: ConnectionStep)
    requires
        old(limiter).wf(),
    ensures
        final(limiter).wf(),
        final(limiter)@ == match peer {
            Some(ip) => rate_limit::checked(old(limiter)@, ip, now_ns as int),
            None => old(limiter)@,
        },
        peer is None ==> final(limiter)@ == old(limiter)@,
        peer is Some && rate_limit::answer(old(limiter)@, peer->0, now_ns as int) is Err ==> r@.done
            && r@.enqueue is None && final(map)@ == old(map)@,
        r@.enqueue is Some ==> r@.enqueue->0.session_id == id && old(map)@.dom().contains(id)
            && r@.enqueue->0.language == old(map)@[id].language && r@.enqueue->0.translate == old(
            map,
        )@[id].translate && !r@.done,
        forall|other: u128| #[trigger]
            final(map)@.dom().contains(other) == old(map)@.dom().contains(other),
        forall|other: u128|
            other != id && old(map)@.dom().contains(other) ==> #[trigger] final(map)@[other] == old(
                map,
            )@[other],
        match token_error(old(limiter)@, peer, now_ns as int) {
            Some(e) => final(map)@ == old(map)@ && r@ == limited_step(e.text()),
            None => match decoded(bytes@) {
                Err(e) => final(map)@ == old(map)@ && r@ == frame_step(
                    Some(InboundErrorView::Codec(e)),
                    None,
                ),
                Ok(p) => final(map)@ == sessions_after(old(map)@, *limits, id, p, now_ms) && r@
                    == frame_step(
                    payload_error(*limits, p),
                    request_of(old(map)@, *limits, id, p),
                ),
            },
        },
{
    match limiter.check_opt(peer, now_ns) {
        Err(e) => {
            let message = e.message();
            let ghost m = message@;
            let mut send: Vec<WireOut> = Vec::new();
            send.push(WireOut::Binary(make_error_frame(message)));
            send.push(WireOut::Close(Some((POLICY_CLOSE, text::own("rate limit exceeded")))));
            let r = ConnectionStep { send, enqueue: None, done: true };
            assert(r@.send =~= limited_step(m).send);
            r
        },
        Ok(_) => step_for(handle_inbound(limits, map, id, bytes, now_ms)),
    }
}

/// Why the rate limit refuses a peer; one that is not known is not refused.
pub open spec fn token_error(
    v: rate_limit::LimiterView,
    peer: Option<Ip>,
    now: int,
) -> Option<RateLimitError> {
    match peer {
        Some(ip) => match rate_limit::answer(v, ip, now) {
            Ok(_) => None,
            Err(e) => Some(e),
        },
        None => None,
    }
}

/// Handing a request to the worker failed.
pub fn on_worker_gone() -> (r: ConnectionStep)
    ensures
        r@ == frame_step(Some(InboundErrorView::WorkerUnavailable), None),
{
    step_for(Err(InboundError::WorkerUnavailable))
}

/// What a message of the server does.
pub open spec fn outbound_step(m: Option<OutboundMessage>) -> StepView {
    match m {
        Some(OutboundMessage::Payload(p)) => StepView {
            send: seq![WireOutView::Binary(proto::frame_bytes(p@))],
            enqueue: None,
            done: false,
        },
        Some(OutboundMessage::Close) => StepView {
            send: seq![WireOutView::Close(None)],
            enqueue: None,
            done: true,
        },
        None => end_step(),
    }
}

/// Anything else has happened on the connection.
pub fn on_signal(signal: Signal) -> (r: ConnectionStep)
    ensures
        r@ == match signal {
            Signal::ClientClose => end_step(),
            Signal::KeepAlive => no_step(),
            Signal::TextFrame => no_step(),
            Signal::ReadError => end_step(),
            Signal::StreamEnded => end_step(),
            Signal::Outbound(m) => outbound_step(m),
        },
        signal is ClientClose || signal is ReadError || signal is StreamEnded ==> r@.done
            && r@.send.len() == 0,
        signal is KeepAlive || signal is TextFrame ==> !r@.done && r@.send.len() == 0,
        r@.enqueue is None,
        signal is Outbound && signal->Outbound_0 is None ==> r@.done,
        signal is Outbound && signal->Outbound_0 is Some ==> r@.send.len() == 1,
{
    match signal {
        Signal::ClientClose => quiet(true),
        Signal::KeepAlive => quiet(false),
        Signal::TextFrame => quiet(false),
        Signal::ReadError => quiet(true),
        Signal::StreamEnded => quiet(true),
        Signal::Outbound(m) => match m {
            Some(OutboundMessage::Payload(p)) => {
                let mut send: Vec<WireOut> = Vec::new();
                match proto::encode(p) {
                    Ok(b) => {
                        send.push(WireOut::Binary(b));
                    },
                    Err(_) => {},
                }
                let r = ConnectionStep { send, enqueue: None, done: false };
                assert(r@.send =~= seq![WireOutView::Binary(proto::frame_bytes(p@))]);
                r
            },
            Some(OutboundMessage::Close) => {
                let mut send: Vec<WireOut> = Vec::new();
                send.push(WireOut::Close(None));
                let r = ConnectionStep { send, enqueue: None, done: true };
                assert(r@.send =~= seq![WireOutView::Close(None)]);
                r
            },
            None => quiet(true),
        },
    }
}

// ---- Answers of the plain routes ----------------------------------------

/// The answer to a health check.
pub open spec fn health(ready: bool) -> ReplyView {
    ReplyView {
        status: if ready {
            200
        } else {
            503
        },
        body_type: BodyType::Text,
        caching: Caching::Unsaid,
        body: if ready {
            "ok"@
        } else {
            "starting"@
        },
    }
}

/// Answer a health check.
pub fn healthz(ready: bool) -> (r: Reply)
    ensures
        r@ == health(ready),
{
    if ready {
        Reply {
            status: 200,
            body_type: BodyType::Text,
            caching: Caching::Unsaid,
            body: text::own("ok"),
        }
    } else {
        Reply {
            status: 503,
            body_type: BodyType::Text,
            caching: Caching::Unsaid,
            body: text::own("starting"),
        }
    }
}

// ---- Laws ---------------------------------------------------------------

/// Whatever a client sends, only its own session can change.
pub proof fn law_frame_touches_its_own_session(
    m: Map<u128, SessionView>,
    limits: LimitsConfig,
    id: u128,
    other: u128,
    p: PayloadView,
    now_ms: u64,
)
    requires
        id != other,
    ensures
        sessions_after(m, limits, id, p, now_ms).dom().contains(other) == m.dom().contains(other),
        m.dom().contains(other) ==> sessions_after(m, limits, id, p, now_ms)[other] == m[other],
{
}

/// A frame that is refused changes nothing and asks nothing of the worker.
pub proof fn law_refused_frame_has_no_effect(
    m: Map<u128, SessionView>,
    limits: LimitsConfig,
    id: u128,
    p: PayloadView,
    now_ms: u64,
)
    requires
        payload_error(limits, p) is Some,
    ensures
        sessions_after(m, limits, id, p, now_ms) == m,
        request_of(m, limits, id, p) is None,
        frame_step(payload_error(limits, p), request_of(m, limits, id, p)).enqueue is None,
{
}

/// A request always carries the id under which the server registered the client,
/// and the settings of that session.
pub proof fn law_request_is_for_its_own_session(
    m: Map<u128, SessionView>,
    limits: LimitsConfig,
    id: u128,
    p: PayloadView,
)
    requires
        request_of(m, limits, id, p) is Some,
    ensures
        m.dom().contains(id),
        request_of(m, limits, id, p)->0.session_id == id,
        request_of(m, limits, id, p)->0.language == m[id].language,
        request_of(m, limits, id, p)->0.translate == m[id].translate,
{
}

/// The settings that a client sends are those its later audio is transcribed
/// with.
pub proof fn law_settings_reach_later_audio(
    m: Map<u128, SessionView>,
    limits: LimitsConfig,
    id: u128,
    language: Option<Seq<char>>,
    translate: bool,
    samples: Seq<u32>,
    now_ms: u64,
)
    requires
        m.dom().contains(id),
        validation::config_error(limits, language) is None,
        validation::audio_error(limits, samples.len() as int) is None,
    ensures
        request_of(
            sessions_after(m, limits, id, PayloadView::Config { language, translate }, now_ms),
            limits,
            id,
            PayloadView::Audio { samples },
        ) == Some(
            RequestView { session_id: id, samples, language: small_lang(language), translate },
        ),
{
}

/// A start that is accepted changes the language and the time of last activity, and
/// nothing else: whether to translate stays as it was.
pub proof fn law_start_changes_only_the_language(
    m: Map<u128, SessionView>,
    limits: LimitsConfig,
    id: u128,
    lang_hint: Option<Seq<char>>,
    sample_rate: u32,
    now_ms: u64,
)
    requires
        m.dom().contains(id),
        validation::start_error(limits, sample_rate, lang_hint) is None,
    ensures
        ({
            let p = PayloadView::Start { lang_hint, sample_rate };
            let s = sessions_after(m, limits, id, p, now_ms)[id];
            &&& sessions_after(m, limits, id, p, now_ms).dom() == m.dom()
            &&& s.translate == m[id].translate
            &&& s.buffer == m[id].buffer
            &&& s.last_activity_ms == now_ms
            &&& s.language is Some <==> lang_hint is Some
            &&& lang_hint is Some ==> s.language->0 == text::lower(lang_hint->0)
        }),
{
    let p = PayloadView::Start { lang_hint, sample_rate };
    assert(sessions_after(m, limits, id, p, now_ms).dom() =~= m.dom());
}

/// Settings that are accepted change the language, whether to translate, and the
/// time of last activity.
pub proof fn law_settings_are_taken_as_sent(
    m: Map<u128, SessionView>,
    limits: LimitsConfig,
    id: u128,
    language: Option<Seq<char>>,
    translate: bool,
    now_ms: u64,
)
    requires
        m.dom().contains(id),
        validation::config_error(limits, language) is None,
    ensures
        ({
            let p = PayloadView::Config { language, translate };
            let s = sessions_after(m, limits, id, p, now_ms)[id];
            &&& sessions_after(m, limits, id, p, now_ms).dom() == m.dom()
            &&& s.translate == translate
            &&& s.buffer == m[id].buffer
            &&& s.last_activity_ms == now_ms
            &&& s.language is Some <==> language is Some
            &&& language is Some ==> s.language->0 == text::lower(language->0)
        }),
{
    let p = PayloadView::Config { language, translate };
    assert(sessions_after(m, limits, id, p, now_ms).dom() =~= m.dom());
}

/// Audio that is accepted becomes a request with its very samples and the settings
/// of its session, and changes only the time of last activity. Nothing else becomes
/// a request.
pub proof fn law_audio_is_transcribed_as_sent(
    m: Map<u128, SessionView>,
    limits: LimitsConfig,
    id: u128,
    samples: Seq<u32>,
    p: PayloadView,
    now_ms: u64,
)
    requires
        m.dom().contains(id),
    ensures
        ({
            let a = PayloadView::Audio { samples };
            let s = sessions_after(m, limits, id, a, now_ms)[id];
            let q = request_of(m, limits, id, a);
            &&& q is Some <==> samples.len() <= limits.max_audio_frame_samples
            &&& q is Some ==> {
                &&& q->0.session_id == id
                &&& q->0.samples == samples
                &&& q->0.language == m[id].language
                &&& q->0.translate == m[id].translate
                &&& s.last_activity_ms == now_ms
            }
            &&& s.language == m[id].language
            &&& s.translate == m[id].translate
            &&& s.buffer == m[id].buffer
        }),
        !(p is Audio) ==> request_of(m, limits, id, p) is None,
{
}

/// The sessions after frames that came one after the other, each at its time.
pub open spec fn sessions_after_all(
    m: Map<u128, SessionView>,
    limits: LimitsConfig,
    id: u128,
    frames: Seq<(PayloadView, u64)>,
) -> Map<u128, SessionView>
    decreases frames.len(),
{
    if frames.len() == 0 {
        m
    } else {
        sessions_after(
            sessions_after_all(m, limits, id, frames.drop_last()),
            limits,
            id,
            frames.last().0,
            frames.last().1,
        )
    }
}

/// A new session whose client has sent no settings is transcribed without
/// translation, whatever else the client has sent; and without a start its language
/// is left to be detected.
pub proof fn law_untold_session_is_not_translated(
    m: Map<u128, SessionView>,
    limits: LimitsConfig,
    id: u128,
    buffer: usize,
    began_ms: u64,
    frames: Seq<(PayloadView, u64)>,
    samples: Seq<u32>,
)
    requires
        forall|i: int| 0 <= i < frames.len() ==> !((#[trigger] frames[i]).0 is Config),
        samples.len() <= limits.max_audio_frame_samples,
    ensures
        ({
            let now = sessions_after_all(
                m.insert(id, session::begun(buffer, began_ms)),
                limits,
                id,
                frames,
            );
            let q = request_of(now, limits, id, PayloadView::Audio { samples });
            &&& now.dom().contains(id)
            &&& now[id].buffer == buffer
            &&& q is Some && q->0.translate == false && q->0.samples == samples
            &&& (forall|i: int| 0 <= i < frames.len() ==> !((#[trigger] frames[i]).0 is Start))
                ==> q->0.language is None
        }),
    decreases frames.len(),
{
    if frames.len() > 0 {
        let before = frames.drop_last();
        assert forall|i: int| 0 <= i < before.len() implies !((#[trigger] before[i]).0
            is Config) by {
            assert(before[i] == frames[i]);
        }
        law_untold_session_is_not_translated(
            m,
            limits,
            id,
            buffer,
            began_ms,
            before,
            samples,
        );
        assert(!(frames.last().0 is Config));
        if forall|i: int| 0 <= i < frames.len() ==> !((#[trigger] frames[i]).0 is Start) {
            assert(forall|i: int| 0 <= i < before.len() ==> #[trigger] before[i] == frames[i]);
            assert(!(frames[frames.len() - 1].0 is Start));
        }
    }
}

/// The language of the last start or settings that were accepted is the one that
/// later audio is transcribed in, whatever frames of other kinds come between.
pub proof fn law_language_lasts(
    m: Map<u128, SessionView>,
    limits: LimitsConfig,
    id: u128,
    told: PayloadView,
    told_ms: u64,
    frames: Seq<(PayloadView, u64)>,
    samples: Seq<u32>,
)
    requires
        m.dom().contains(id),
        payload_error(limits, told) is None,
        told is Start || told is Config,
        forall|i: int|
            0 <= i < frames.len() ==> !((#[trigger] frames[i]).0 is Start) && !(frames[i].0
                is Config),
        samples.len() <= limits.max_audio_frame_samples,
    ensures
        ({
            let now = sessions_after_all(
                sessions_after(m, limits, id, told, told_ms),
                limits,
                id,
                frames,
            );
            let q = request_of(now, limits, id, PayloadView::Audio { samples });
            let lang = match told {
                PayloadView::Start { lang_hint, .. } => lang_hint,
                PayloadView::Config { language, .. } => language,
                _ => None,
            };
            &&& q is Some
            &&& q->0.language is Some <==> lang is Some
            &&& lang is Some ==> q->0.language->0 == text::lower(lang->0)
            &&& told is Config ==> q->0.translate == told->translate
            &&& told is Start ==> q->0.translate == m[id].translate
            &&& now.dom().contains(id)
        }),
    decreases frames.len(),
{
    if frames.len() > 0 {
        let before = frames.drop_last();
        assert forall|i: int| 0 <= i < before.len() implies !((#[trigger] before[i]).0 is Start)
            && !(before[i].0 is Config) by {
            assert(before[i] == frames[i]);
        }
        law_language_lasts(m, limits, id, told, told_ms, before, samples);
        assert(!(frames[frames.len() - 1].0 is Start));
    }
}

/// Which frames of a client are refused, and as what: a stop ends the session; the
/// others are refused exactly when the checks refuse them; what only the server
/// sends is let pass without effect.
pub proof fn law_frames_are_refused_by_the_checks(
    m: Map<u128, SessionView>,
    limits: LimitsConfig,
    id: u128,
    p: PayloadView,
    now_ms: u64,
)
    ensures
        p is Stop <==> payload_error(limits, p) == Some(InboundErrorView::ClientStop),
        p is Start ==> (payload_error(limits, p) is None <==> validation::start_error(
            limits,
            p->sample_rate,
            p->lang_hint,
        ) is None),
        p is Config ==> (payload_error(limits, p) is None <==> validation::config_error(
            limits,
            p->language,
        ) is None),
        p is Audio ==> (payload_error(limits, p) is None <==> p->samples.len()
            <= limits.max_audio_frame_samples),
        p is Partial || p is Final || p is Error || p is Backend ==> payload_error(limits, p)
            is None && sessions_after(m, limits, id, p, now_ms) == m,
{
}

/// A frame that is refused is answered with one error frame that says why, and the
/// connection goes on; a client that stops is sent nothing and the connection ends;
/// an accepted frame is not answered.
pub proof fn law_client_is_told_why(e: InboundErrorView, q: Option<RequestView>)
    ensures
        e is ClientStop ==> frame_step(Some(e), q).send.len() == 0 && frame_step(Some(e), q).done,
        !(e is ClientStop) ==> {
            let s = frame_step(Some(e), q);
            &&& s.send.len() == 1
            &&& s.send[0] == WireOutView::Binary(
                proto::frame_bytes(PayloadView::Error { code: 1, message: inbound_error_text(e) }),
            )
            &&& !s.done
        },
        frame_step(Some(e), q).enqueue is None,
        frame_step(None, q).send.len() == 0 && frame_step(None, q).enqueue == q && !frame_step(
            None,
            q,
        ).done,
        e is Codec ==> inbound_error_text(e) == "codec: "@ + proto::codec_error_text(e->Codec_0),
        e is Validation ==> inbound_error_text(e) == validation::frame_error_text(
            e->Validation_0,
        ),
        inbound_error_text(InboundErrorView::ClientStop) == "client requested stop"@,
        inbound_error_text(InboundErrorView::WorkerUnavailable) == "worker queue closed"@,
{
}

/// A client without tokens is told so in an error frame, then cut off with the code
/// for a broken policy.
pub proof fn law_limited_client_is_cut_off(message: Seq<char>)
    ensures
        ({
            let s = limited_step(message);
            &&& s.done && s.enqueue is None
            &&& s.send.len() == 2
            &&& s.send[0] == WireOutView::Binary(
                proto::frame_bytes(PayloadView::Error { code: 1, message }),
            )
            &&& s.send[1] == WireOutView::Close(Some((1008u16, "rate limit exceeded"@)))
        }),
{
}

/// A token is asked for exactly when the peer's address is known, and of that
/// address.
pub proof fn law_peer_pays_for_its_frames(v: rate_limit::LimiterView, ip: Ip, now: int)
    ensures
        token_error(v, None, now) is None,
        token_error(v, Some(ip), now) is Some <==> rate_limit::answer(v, ip, now) is Err,
        token_error(v, Some(ip), now) is Some ==> Err::<(), RateLimitError>(
            token_error(v, Some(ip), now)->0,
        ) == rate_limit::answer(v, ip, now),
{
}

/// Every message of the protocol is known again by its first byte: what a frame says
/// is what its reader makes of the rest.
pub proof fn law_first_byte_tells_the_message(tail: Seq<u8>)
    ensures
        decoded(Seq::empty()) == Err::<PayloadView, _>(CodecErrorView::EmptyFrame),
        decoded(seq![0x11u8] + tail) == Ok::<_, CodecErrorView>(PayloadView::Stop),
        proto::audio_read(tail) is Ok ==> decoded(seq![0x01u8] + tail) == Ok::<_, CodecErrorView>(
            PayloadView::Audio { samples: proto::audio_read(tail)->Ok_0 },
        ),
        proto::start_read(tail) is Ok ==> decoded(seq![0x10u8] + tail) == Ok::<_, CodecErrorView>(
            PayloadView::Start {
                lang_hint: proto::start_read(tail)->Ok_0.0,
                sample_rate: proto::start_read(tail)->Ok_0.1,
            },
        ),
        proto::config_read(tail) is Ok ==> decoded(seq![0x12u8] + tail) == Ok::<
            _,
            CodecErrorView,
        >(
            PayloadView::Config {
                language: proto::config_read(tail)->Ok_0.0,
                translate: proto::config_read(tail)->Ok_0.1,
            },
        ),
        forall|b: u8|
            !seq![0x01u8, 0x10, 0x11, 0x12, 0x20, 0x21, 0x30, 0x31].contains(b) ==> decoded(
                #[trigger] (seq![b] + tail),
            ) == Err::<PayloadView, _>(CodecErrorView::UnknownTag(b)),
{
    lemma_decoded(proto::Tag::StopSession, tail);
    lemma_decoded(proto::Tag::AudioFrame, tail);
    lemma_decoded(proto::Tag::StartSession, tail);
    lemma_decoded(proto::Tag::Config, tail);
    let all = seq![0x01u8, 0x10, 0x11, 0x12, 0x20, 0x21, 0x30, 0x31];
    assert(all[0] == 0x01 && all[1] == 0x10 && all[2] == 0x11 && all[3] == 0x12);
    assert(all[4] == 0x20 && all[5] == 0x21 && all[6] == 0x30 && all[7] == 0x31);
    assert forall|b: u8| !all.contains(b) implies decoded(#[trigger] (seq![b] + tail)) == Err::<
        PayloadView,
        _,
    >(CodecErrorView::UnknownTag(b)) by {
        assert((seq![b] + tail)[0] == b);
        assert forall|t: proto::Tag| #[trigger] t.byte() != b by {
            assert(all.contains(t.byte()));
        }
    }
}

/// A frame with the byte of a message is read as that message.
proof fn lemma_decoded(t: proto::Tag, tail: Seq<u8>)
    ensures
        decoded(seq![t.byte()] + tail) == match proto::read_tagged(t, tail) {
            Ok(p) => Ok::<_, CodecErrorView>(p),
            Err(e) => Err(CodecErrorView::Postcard(e)),
        },
{
    let b = seq![t.byte()] + tail;
    assert(b[0] == t.byte());
    assert(b.subrange(1, b.len() as int) =~= tail);
    assert(t.byte() == b[0]);
    let u = choose|u: proto::Tag| u.byte() == b[0];
    assert(u.byte() == t.byte());
    assert(u == t);
}

/// What the server sends on its own: a message as its frame, and a close that ends the
/// connection; when nobody will send more, the connection ends too.
pub proof fn law_outbound_is_sent(p: Payload)
    ensures
        outbound_step(Some(OutboundMessage::Payload(p))).send == seq![
            WireOutView::Binary(proto::frame_bytes(p@)),
        ],
        !outbound_step(Some(OutboundMessage::Payload(p))).done,
        outbound_step(Some(OutboundMessage::Close)).send == seq![WireOutView::Close(None)],
        outbound_step(Some(OutboundMessage::Close)).done,
        outbound_step(None).send.len() == 0 && outbound_step(None).done,
        outbound_step(None).enqueue is None,
        no_step().send.len() == 0 && no_step().enqueue is None && !no_step().done,
        end_step().send.len() == 0 && end_step().enqueue is None && end_step().done,
{
}

/// The server says that it is well exactly when it is ready.
pub proof fn law_health_is_told(ready: bool)
    ensures
        health(true).status == 200 && health(true).body == "ok"@,
        health(false).status == 503 && health(false).body == "starting"@,
        health(ready).body_type == BodyType::Text,
{
}

} // verus!
