use nagent::backend::{
    assemble_response, detect_backend_name, BackendError, InferRequest, InferResponse,
    InferenceWorker, MockBackend,
};
use nagent::config::LimitsConfig;
use nagent::error_code;
use nagent::net::Ip;
use nagent::proto::{
    decode_frame, encode, AudioFrame, Config, FinalTranscript, Payload, Segment, StartSession,
    StopSession, Tag,
};
use nagent::rate_limit::{RateLimitPolicy, RateLimiter};
use nagent::router::{send_to_session, ResultRouter};
use nagent::session::{
    new_session_map, outbound_for, register, register_as, session_id_text, unregister,
    OutboundMessage, SessionMap, SessionState,
};
use nagent::watchdog::{sweep, tick_ns};
use nagent::ws_handler::{
    handle_inbound, handle_payload, healthz, on_binary, on_signal, on_worker_gone, opening_frame,
    ConnectionStep, InboundError, Signal, WireOut,
};

#[test]
fn register_and_unregister() {
    let mut map = new_session_map();
    let id = register(&mut map, 1, 5);
    assert!(outbound_for(&map, id).is_some());
    assert!(unregister(&mut map, id).is_some());
    assert!(outbound_for(&map, id).is_none());
    assert!(unregister(&mut map, id).is_none());
}

#[test]
fn touch_updates_last_activity() {
    let mut state = SessionState::new(1, 10);
    let before = state.last_activity_ms;
    state.touch(15);
    assert!(state.last_activity_ms >= before);
    assert_eq!(state.last_activity_ms, 15);
}

#[test]
fn language_round_trip() {
    let mut map = new_session_map();
    let id = register(&mut map, 1, 0);
    let mut state = map.get(id).unwrap();
    assert_eq!(state.language(), None);
    assert!(!state.translate());
    state.set_language(Some("fr".into()));
    state.set_translate(true);
    map.put(id, state);
    let state = map.get(id).unwrap();
    assert_eq!(state.language().as_deref(), Some("fr"));
    assert!(state.translate());
}

#[test]
fn outbound_for_unknown_returns_none() {
    let map = new_session_map();
    assert!(outbound_for(&map, uuid::Uuid::new_v4().as_u128()).is_none());
}

#[test]
fn ids_are_random_and_written_as_uuids() {
    let mut map = new_session_map();
    let a = register(&mut map, 1, 0);
    let b = register(&mut map, 1, 0);
    assert_ne!(a, b);
    let id = uuid::Uuid::from_u128(a);
    assert_eq!(id.get_version_num(), 4);
    assert_eq!(session_id_text(a), id.to_string());
    assert_eq!(session_id_text(1), "00000000-0000-0000-0000-000000000001");
}

fn request(session: u128) -> InferRequest {
    InferRequest { session_id: session, samples: vec![0; 16], language: None, translate: false }
}

fn echoed(session: u128) -> InferResponse {
    InferResponse {
        session_id: session,
        text: format!("session={}", session_id_text(session)),
        segments: vec![],
        lang: "en".into(),
        duration_ms: 0,
    }
}

#[test]
fn worker_echoes_session_id() {
    let session = uuid::Uuid::new_v4().as_u128();
    let resp = InferenceWorker::finish(session, Ok(echoed(session)), 3);
    assert_eq!(resp.session_id, session);
    assert_eq!(resp.text, format!("session={}", uuid::Uuid::from_u128(session)));
    assert_eq!(resp.duration_ms, 3);
}

#[test]
fn worker_handles_two_sessions_in_order() {
    let s_a = uuid::Uuid::new_v4().as_u128();
    let s_b = uuid::Uuid::new_v4().as_u128();
    let resp_a = InferenceWorker::finish(s_a, Ok(echoed(s_a)), 0);
    let resp_b = InferenceWorker::finish(s_b, Ok(echoed(s_b)), 0);
    assert_eq!(resp_a.session_id, s_a);
    assert_eq!(resp_a.text, format!("session={}", uuid::Uuid::from_u128(s_a)));
    assert_eq!(resp_b.session_id, s_b);
    assert_eq!(resp_b.text, format!("session={}", uuid::Uuid::from_u128(s_b)));
}

#[test]
fn a_failed_backend_gives_an_empty_transcript() {
    let resp = InferenceWorker::finish(9, Err(BackendError::Overloaded), 7);
    assert_eq!(
        resp,
        InferResponse {
            session_id: 9,
            text: "".into(),
            segments: vec![],
            lang: "".into(),
            duration_ms: 7
        }
    );
    assert_eq!(BackendError::Overloaded.message(), "backend overloaded");
    assert_eq!(BackendError::NotReady("m".into()).message(), "backend not ready: m");
    assert_eq!(BackendError::Inference("m".into()).message(), "inference failed: m");
}

#[test]
fn the_stand_in_names_the_session() {
    let mock = MockBackend::new("mock-model");
    assert_eq!(mock.model_id(), "mock-model");
    let id = 0x1234u128;
    let mut q = request(id);
    q.samples = vec![0; 16_000];
    let r = mock.infer(q).unwrap();
    assert_eq!(r.session_id, id);
    assert_eq!(r.text, format!("mock-session={}", session_id_text(id)));
}

#[test]
fn backends_by_what_is_built_in() {
    assert_eq!(detect_backend_name(true, true, true), "vulkan");
    assert_eq!(detect_backend_name(false, true, true), "cuda");
    assert_eq!(detect_backend_name(false, false, true), "hipblas");
    assert_eq!(detect_backend_name(false, false, false), "cpu");
}

#[test]
fn segments_make_up_the_text() {
    let seg = |t: &str| Segment { text: t.into(), t0_ms: 0, t1_ms: 1, no_speech_prob: 0 };
    let r = assemble_response(4, vec![seg(" Hello"), seg(" world. ")], "en".into());
    assert_eq!(r.session_id, 4);
    assert_eq!(r.text, "Hello world.");
    assert_eq!(r.segments.len(), 2);
}

fn binary(step: &ConnectionStep) -> Payload {
    match &step.send[0] {
        WireOut::Binary(b) => decode_frame(b).unwrap(),
        other => panic!("unexpected {other:?}"),
    }
}

fn small_limits() -> LimitsConfig {
    LimitsConfig { max_audio_frame_samples: 64, ..LimitsConfig::default() }
}

fn frame(map: &mut SessionMap, id: u128, payload: Payload) -> ConnectionStep {
    let mut limiter = RateLimiter::new(RateLimitPolicy::stt(1000));
    let bytes = encode(payload).unwrap();
    on_binary(&mut limiter, &small_limits(), map, id, None, &bytes, 0, 50)
}

fn error_of(step: &ConnectionStep) -> (u16, String) {
    assert!(!step.done);
    assert!(step.enqueue.is_none());
    match binary(step) {
        Payload::Error(e) => (e.code, e.message),
        other => panic!("expected an error, got {other:?}"),
    }
}

fn start(lang: Option<String>, sample_rate: u32) -> Payload {
    Payload::Start(StartSession { lang_hint: lang, sample_rate })
}

#[test]
fn start_with_wrong_sample_rate_is_rejected() {
    let mut map = new_session_map();
    register_as(&mut map, 1, 4, 0);
    let (code, message) = error_of(&frame(&mut map, 1, start(Some("en".into()), 44_100)));
    assert_eq!(code, error_code::INVALID_FRAME);
    assert!(message.contains("44100") || message.contains("sample_rate"), "{message}");
    assert_eq!(map.get(1).unwrap().language(), None);
}

#[test]
fn start_with_unknown_language_hint_is_rejected() {
    let mut map = new_session_map();
    register_as(&mut map, 1, 4, 0);
    let (code, message) = error_of(&frame(&mut map, 1, start(Some("klingon".into()), 16_000)));
    assert_eq!(code, error_code::INVALID_FRAME);
    assert!(message.to_lowercase().contains("language"), "{message}");
}

#[test]
fn start_with_overlong_language_hint_is_rejected() {
    let mut map = new_session_map();
    register_as(&mut map, 1, 4, 0);
    let (code, _) = error_of(&frame(&mut map, 1, start(Some("a".repeat(64)), 16_000)));
    assert_eq!(code, error_code::INVALID_FRAME);
}

#[test]
fn oversized_audio_frame_is_rejected() {
    let mut map = new_session_map();
    register_as(&mut map, 1, 4, 0);
    let samples = vec![0.0_f32.to_bits(); 65];
    let (code, message) = error_of(&frame(&mut map, 1, Payload::Audio(AudioFrame { samples })));
    assert_eq!(code, error_code::INVALID_FRAME);
    assert!(message.contains("65"), "{message}");
}

#[test]
fn config_with_unknown_language_hint_is_rejected() {
    let mut map = new_session_map();
    register_as(&mut map, 1, 4, 0);
    let p = Payload::Config(Config { language: Some("klingon".into()), translate: false });
    let (code, _) = error_of(&frame(&mut map, 1, p));
    assert_eq!(code, error_code::INVALID_FRAME);
}

#[test]
fn valid_audio_at_size_boundary_is_accepted() {
    let mut map = new_session_map();
    register_as(&mut map, 1, 4, 0);
    let step = frame(&mut map, 1, start(Some("EN".into()), 16_000));
    assert_eq!(step, ConnectionStep { send: vec![], enqueue: None, done: false });
    let samples = vec![0.0_f32.to_bits(); 64];
    let step = frame(&mut map, 1, Payload::Audio(AudioFrame { samples: samples.clone() }));
    assert!(step.send.is_empty() && !step.done);
    let q = step.enqueue.unwrap();
    assert_eq!(q.session_id, 1);
    assert_eq!(q.samples, samples);
    assert_eq!(map.get(1).unwrap().last_activity_ms, 50);
}

#[test]
fn settings_reach_later_audio() {
    let mut map = new_session_map();
    register_as(&mut map, 1, 4, 0);
    let p = Payload::Config(Config { language: Some("de".into()), translate: true });
    frame(&mut map, 1, p);
    let step = frame(&mut map, 1, Payload::Audio(AudioFrame { samples: vec![1] }));
    let q = step.enqueue.unwrap();
    assert_eq!(q.language.as_deref(), Some("de"));
    assert!(q.translate);
}

#[test]
fn a_stop_ends_the_connection() {
    let mut map = new_session_map();
    register_as(&mut map, 1, 4, 0);
    let step = frame(&mut map, 1, Payload::Stop(StopSession));
    assert_eq!(step, ConnectionStep { send: vec![], enqueue: None, done: true });
    let r = handle_payload(&small_limits(), &mut map, 1, Payload::Stop(StopSession), 0);
    assert_eq!(r, Err(InboundError::ClientStop));
}

#[test]
fn bytes_that_are_no_frame_are_reported() {
    let mut map = new_session_map();
    register_as(&mut map, 1, 4, 0);
    let r = handle_inbound(&small_limits(), &mut map, 1, &[0xEE], 0);
    assert!(matches!(r, Err(InboundError::Codec(_))));
    let mut limiter = RateLimiter::new(RateLimitPolicy::stt(10));
    let step = on_binary(&mut limiter, &small_limits(), &mut map, 1, None, &[], 0, 0);
    let (code, _) = error_of(&step);
    assert_eq!(code, error_code::INVALID_FRAME);
    assert_eq!(map.get(1).unwrap().last_activity_ms, 0);
}

#[test]
fn a_client_without_tokens_is_cut_off() {
    let mut map = new_session_map();
    register_as(&mut map, 1, 4, 0);
    let mut limiter = RateLimiter::new(RateLimitPolicy::stt(1));
    let peer = Some(Ip::V4(203, 0, 113, 7));
    let bytes = encode(start(None, 16_000)).unwrap();
    let limits = small_limits();
    let step = on_binary(&mut limiter, &limits, &mut map, 1, peer, &bytes, 0, 0);
    assert!(!step.done);
    let step = on_binary(&mut limiter, &limits, &mut map, 1, peer, &bytes, 0, 0);
    assert!(step.done);
    match binary(&step) {
        Payload::Error(e) => assert_eq!(
            e.message,
            "rate limit exceeded for 203.0.113.7: retry after 60000 ms"
        ),
        other => panic!("unexpected {other:?}"),
    }
    assert_eq!(
        step.send[1],
        WireOut::Close(Some((1008, "rate limit exceeded".to_string())))
    );
}

#[test]
fn signals_of_a_connection() {
    for s in [Signal::ClientClose, Signal::ReadError, Signal::StreamEnded, Signal::Outbound(None)] {
        assert_eq!(on_signal(s), ConnectionStep { send: vec![], enqueue: None, done: true });
    }
    for s in [Signal::KeepAlive, Signal::TextFrame] {
        assert_eq!(on_signal(s), ConnectionStep { send: vec![], enqueue: None, done: false });
    }
    let step = on_signal(Signal::Outbound(Some(OutboundMessage::Close)));
    assert_eq!(step.send, vec![WireOut::Close(None)]);
    assert!(step.done);
    let p = Payload::Final(FinalTranscript { text: "t".into(), segments: vec![], lang: "l".into() });
    let step = on_signal(Signal::Outbound(Some(OutboundMessage::Payload(p.clone()))));
    assert_eq!(binary(&step), p);
    assert!(!step.done);
    assert!(matches!(binary(&on_worker_gone()), Payload::Error(_)));
}

#[test]
fn ws_upgrade_first_frame_is_backend_info() {
    let bytes = opening_frame("model", "cpu");
    assert_eq!(bytes[0], Tag::BackendInfo.to_u8());
    match decode_frame(&bytes).unwrap() {
        Payload::Backend(b) => {
            assert_eq!(b.model_id, "model");
            assert_eq!(b.gpu_backend, "cpu");
        }
        other => panic!("unexpected {other:?}"),
    }
}

#[test]
fn two_sessions_do_not_cross_talk() {
    let mut map = new_session_map();
    let id1 = register(&mut map, 4, 0);
    let id2 = register(&mut map, 4, 0);
    assert_ne!(id1, id2);
    frame(&mut map, id1, start(Some("en".into()), 16_000));
    frame(&mut map, id2, start(Some("fr".into()), 16_000));
    assert_eq!(map.get(id1).unwrap().language().as_deref(), Some("en"));
    assert_eq!(map.get(id2).unwrap().language().as_deref(), Some("fr"));
    let mock = MockBackend::new("m");
    for id in [id1, id2] {
        let step = frame(&mut map, id, Payload::Audio(AudioFrame { samples: vec![0; 16] }));
        let q = step.enqueue.unwrap();
        let resp = InferenceWorker::finish(q.session_id, mock.infer(q), 1);
        let (to, payload) = ResultRouter::route(&map, resp, 0).unwrap();
        assert_eq!(to, id);
        match payload {
            Payload::Final(t) => {
                assert_eq!(t.text, format!("mock-session={}", session_id_text(id)))
            }
            other => panic!("unexpected {other:?}"),
        }
    }
    unregister(&mut map, id1);
    assert!(!send_to_session(&map, id1, 0));
    assert!(send_to_session(&map, id2, 0));
    assert!(ResultRouter::route(&map, echoed(id1), 0).is_none());
    assert!(ResultRouter::route(&map, echoed(id2), 0).is_some());
}

#[test]
fn a_full_buffer_takes_nothing() {
    let mut map = new_session_map();
    register_as(&mut map, 1, 2, 0);
    assert_eq!(outbound_for(&map, 1), Some(2));
    assert!(send_to_session(&map, 1, 1));
    assert!(!send_to_session(&map, 1, 2));
    assert!(ResultRouter::route(&map, echoed(1), 1).is_some());
    assert!(ResultRouter::route(&map, echoed(1), 2).is_none());
    assert_eq!(unregister(&mut map, 1).unwrap().buffer, 2);
}

#[test]
fn silent_sessions_are_swept() {
    let mut map = new_session_map();
    register_as(&mut map, 1, 4, 0);
    register_as(&mut map, 2, 4, 900);
    assert!(!map.get(1).unwrap().is_idle(1000, 1000));
    assert!(sweep(&mut map, 1000, 1000).is_empty());
    assert!(map.get(1).unwrap().is_idle(1000, 1001));
    assert!(!map.get(2).unwrap().is_idle(1000, 1001));
    assert!(!map.get(2).unwrap().is_idle(0, 900));
    assert!(!map.get(2).unwrap().is_idle(0, 0));
    assert_eq!(sweep(&mut map, 1000, 1001), vec![1]);
    assert!(outbound_for(&map, 1).is_none());
    assert!(outbound_for(&map, 2).is_some());
    assert_eq!(tick_ns(300_000), 30_000_000_000);
    assert_eq!(tick_ns(30_000), 10_000_000_000);
    assert_eq!(tick_ns(10), 1_000_000_000);
}

#[test]
fn healthz_returns_200() {
    assert_eq!(healthz(true).status, 200);
    assert_eq!(healthz(true).body, "ok");
    assert_eq!(healthz(false).status, 503);
}
