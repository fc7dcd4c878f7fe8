//! Transcription: requests, responses, the stand-in backend and the worker.

use vstd::prelude::*;

use crate::proto;
use crate::proto::{Segment, SegmentView};
use crate::session;
use crate::text;

verus! {

/// Why there is no transcript.
#[derive(Debug, Clone, PartialEq, Eq)]
pub enum BackendError {
    NotReady(String),
    Inference(String),
    Overloaded,
}

impl BackendError {
    /// The message of the error.
    pub open spec fn text(self) -> Seq<char> {
        match self {
            BackendError::NotReady(m) => "backend not ready: "@ + m@,
            BackendError::Inference(m) => "inference failed: "@ + m@,
            BackendError::Overloaded => "backend overloaded"@,
        }
    }

    /// The message of the error.
    pub fn message(&self) -> (r: String)
        ensures
            r@ == self.text(),
    {
        match self {
            BackendError::NotReady(m) => text::own("backend not ready: ").concat(m.as_str()),
            BackendError::Inference(m) => text::own("inference failed: ").concat(m.as_str()),
            BackendError::Overloaded => text::own("backend overloaded"),
        }
    }
}

/// A piece of speech to be transcribed.
#[derive(Debug, Clone, PartialEq, Eq)]
pub struct InferRequest {
    /// Whose it is; never taken from the client.
    pub session_id: u128,
    /// The samples, each the bits of a 32-bit float.
    pub samples: Vec<u32>,
    /// The language; none to detect it.
    pub language: Option<String>,
    /// Whether to translate to English.
    pub translate: bool,
}

/// A request, as values.
pub struct RequestView {
    pub session_id: u128,
    pub samples: Seq<u32>,
    pub language: Option<Seq<char>>,
    pub translate: bool,
}

impl View for InferRequest {
    type V = RequestView;

    open spec fn view(&self) -> RequestView {
        RequestView {
            session_id: self.session_id,
            samples: self.samples@,
            language: text::opt_text(self.language),
            translate: self.translate,
        }
    }
}

/// A transcript.
#[derive(Debug, Clone, PartialEq, Eq)]
pub struct InferResponse {
    pub session_id: u128,
    pub text: String,
    pub segments: Vec<Segment>,
    pub lang: String,
    /// How long it took, in milliseconds.
    pub duration_ms: u64,
}

/// A transcript, as values.
pub struct ResponseView {
    pub session_id: u128,
    pub text: Seq<char>,
    pub segments: Seq<SegmentView>,
    pub lang: Seq<char>,
    pub duration_ms: u64,
}

impl View for InferResponse {
    type V = ResponseView;

    open spec fn view(&self) -> ResponseView {
        ResponseView {
            session_id: self.session_id,
            text: self.text@,
            segments: proto::segments_view(self.segments@),
            lang: self.lang@,
            duration_ms: self.duration_ms,
        }
    }
}

// ---- Rounding -----------------------------------------------------------

/// `n / unit`, to the nearest whole number; halves go to the even one.
pub open spec fn half_even(n: int, unit: int) -> int {
    let q = n / unit;
    let r = n % unit;
    if 2 * r < unit || (2 * r == unit && q % 2 == 0) {
        q
    } else {
        q + 1
    }
}

/// `n` to the nearest number with so many significant bits, where `limit` is two
/// to their number: the numbers up to `limit * unit` are the multiples of
/// `unit`, beyond it the step doubles.
pub open spec fn round_bits(n: nat, limit: nat, unit: nat) -> int
    decreases
            (if n < limit * unit {
                0
            } else {
                n - limit * unit + 1
            }),
    when limit > 0 && unit > 0
{
    if n < limit * unit {
        half_even(n as int, unit as int) * unit
    } else {
        proof {
            assert(limit * (2 * unit) == 2 * (limit * unit)) by (nonlinear_arith);
            assert(limit * unit > 0) by (nonlinear_arith)
                requires
                    limit > 0,
                    unit > 0,
            ;
        }
        round_bits(n, limit, 2 * unit)
    }
}

/// `n / unit`, rounded.
fn divide_half_even(n: u128, unit: u128) -> (r: u128)
    requires
        0 < unit < 0x1_0000_0000_0000_0000_0000,
        n <= u64::MAX,
    ensures
        r == half_even(n as int, unit as int),
        r <= n + 1,
{
    let q: u128 = n / unit;
    let rem: u128 = n % unit;
    proof {
        assert(n / unit <= n) by (nonlinear_arith)
            requires
                unit > 0,
        ;
        assert(n % unit < unit) by (nonlinear_arith)
            requires
                unit > 0,
        ;
    }
    if 2 * rem < unit || (2 * rem == unit && q % 2 == 0) {
        q
    } else {
        q + 1
    }
}

/// `n` to the nearest number with as many significant bits as `limit` has zeros.
pub fn round_significant(n: u64, limit: u64) -> (r: u128)
    requires
        1 < limit,
    ensures
        r == round_bits(n as nat, limit as nat, 1),
        r <= 2 * (n as int + 1),
{
    let mut unit: u128 = 1;
    proof {
        assert(limit as nat * 1 == limit);
    }
    while n as u128 >= limit as u128 * unit
        invariant
            1 < limit,
            1 <= unit <= 0x1_0000_0000_0000_0000,
            unit as int <= n as int || unit == 1,
            round_bits(n as nat, limit as nat, 1) == round_bits(
                n as nat,
                limit as nat,
                unit as nat,
            ),
            limit as int * unit as int <= u64::MAX as int * 0x1_0000_0000_0000_0000,
        decreases
                (if n < limit as int * unit as int {
                    0
                } else {
                    n - limit as int * unit as int + 1
                }),
    {
        proof {
            assert(limit as int * (2 * unit as int) == 2 * (limit as int * unit as int))
                by (nonlinear_arith);
            assert(2 * unit as int <= limit as int * unit as int) by (nonlinear_arith)
                requires
                    limit >= 2,
                    unit >= 1,
            ;
            assert(limit as int * unit as int > 0) by (nonlinear_arith)
                requires
                    limit >= 2,
                    unit >= 1,
            ;
        }
        unit = unit * 2;
    }
    let q: u128 = divide_half_even(n as u128, unit);
    proof {
        lemma_round_up(n as int, unit as int);
    }
    q * unit
}

/// A rounded multiple is not far above.
proof fn lemma_round_up(n: int, unit: int)
    requires
        0 <= n,
        1 <= unit,
        unit <= n || unit == 1,
    ensures
        0 <= half_even(n, unit) * unit <= n + unit,
        half_even(n, unit) * unit <= 2 * (n + 1),
{
    let q = n / unit;
    let r = n % unit;
    assert(n == q * unit + r && 0 <= r < unit) by (nonlinear_arith)
        requires
            q == n / unit,
            r == n % unit,
            unit >= 1,
    ;
    assert(0 <= q * unit) by (nonlinear_arith)
        requires
            n == q * unit + r,
            0 <= n,
            r < unit,
            unit >= 1,
            q == n / unit,
    ;
    assert((q + 1) * unit == q * unit + unit) by (nonlinear_arith);
}

// ---- The stand-in backend -----------------------------------------------

/// A backend that answers at once, without a model.
#[derive(Debug, Clone, PartialEq, Eq)]
pub struct MockBackend {
    model_id: String,
}

/// The length of so many samples at sixteen to a millisecond, as 32-bit
/// floating-point division and conversion give it: the number of samples is
/// rounded to twenty-four bits, the quotient cut to a whole number, and no more
/// than fits.
pub open spec fn samples_ms(n: nat) -> int {
    let ms = round_bits(n, 0x100_0000, 1) / 16;
    if ms > u32::MAX {
        u32::MAX as int
    } else {
        ms
    }
}

/// The stand-in's text for a session.
pub open spec fn mock_text(id: u128) -> Seq<char> {
    "mock-session="@ + session::id_text(id)
}

/// The stand-in's answer.
pub open spec fn mock_response(req: RequestView) -> ResponseView {
    ResponseView {
        session_id: req.session_id,
        text: mock_text(req.session_id),
        segments: seq![
            SegmentView {
                text: mock_text(req.session_id),
                t0_ms: 0,
                t1_ms: samples_ms(req.samples.len()) as u32,
                no_speech_prob: 0,
            },
        ],
        lang: match req.language {
            Some(l) => l,
            None => "en"@,
        },
        duration_ms: 0,
    }
}

impl MockBackend {
    /// The model that the backend claims to have.
    pub closed spec fn model(&self) -> Seq<char> {
        self.model_id@
    }

    /// A backend that claims to have `model_id`.
    pub fn new(model_id: &str) -> (r: Self)
        ensures
            r.model() == model_id@,
    {
        MockBackend { model_id: text::own(model_id) }
    }

    /// Answer a request: the text names the session that asked.
    pub fn infer(&self, req: InferRequest) -> (r: Result<InferResponse, BackendError>)
        ensures
            r is Ok,
            r->Ok_0@ == mock_response(req@),
    {
        let n: u64 = req.samples.len() as u64;
        let rounded: u128 = round_significant(n, 0x100_0000);
        let ms: u128 = rounded / 16;
        let t1: u32 = if ms > u32::MAX as u128 { u32::MAX } else { ms as u32 };
        let line = text::own("mock-session=").concat(
            session::session_id_text(req.session_id).as_str(),
        );
        let lang = match req.language {
            Some(l) => l,
            None => text::own("en"),
        };
        let mut segments: Vec<Segment> = Vec::new();
        segments.push(Segment { text: line.clone(), t0_ms: 0, t1_ms: t1, no_speech_prob: 0 });
        let r = InferResponse {
            session_id: req.session_id,
            text: line,
            segments,
            lang,
            duration_ms: 0,
        };
        assert(r@.segments =~= mock_response(req@).segments);
        Ok(r)
    }

    /// The backend's name.
    pub fn backend_name(&self) -> (r: &'static str)
        ensures
            r@ == "mock"@,
    {
        "mock"
    }

    /// The model that the backend claims to have.
    pub fn model_id(&self) -> (r: &str)
        ensures
            r@ == self.model(),
    {
        self.model_id.as_str()
    }
}

/// The name of a GPU backend among those compiled in: the first of Vulkan, CUDA
/// and HIP, else the CPU.
pub fn detect_backend_name(vulkan: bool, cuda: bool, hipblas: bool) -> (r: &'static str)
    ensures
        r@ == if vulkan {
            "vulkan"@
        } else if cuda {
            "cuda"@
        } else if hipblas {
            "hipblas"@
        } else {
            "cpu"@
        },
        vulkan ==> r@ == "vulkan"@,
        !vulkan && cuda ==> r@ == "cuda"@,
        !vulkan && !cuda && hipblas ==> r@ == "hipblas"@,
        !vulkan && !cuda && !hipblas ==> r@ == "cpu"@,
{
    if vulkan {
        "vulkan"
    } else if cuda {
        "cuda"
    } else if hipblas {
        "hipblas"
    } else {
        "cpu"
    }
}

/// The texts of segments, one after the other.
pub open spec fn all_text(s: Seq<SegmentView>) -> Seq<char>
    decreases s.len(),
{
    if s.len() == 0 {
        Seq::empty()
    } else {
        all_text(s.drop_last()) + s.last().text
    }
}

/// The response for the segments that a model gave: their texts in a row, without
/// outer white space.
pub fn assemble_response(session_id: u128, segments: Vec<Segment>, lang: String) -> (r:
    InferResponse)
    ensures
        r@ == (ResponseView {
            session_id,
            text: text::trim(all_text(proto::segments_view(segments@))),
            segments: proto::segments_view(segments@),
            lang: lang@,
            duration_ms: 0,
        }),
        r.session_id == session_id,
        proto::segments_view(r.segments@) == proto::segments_view(segments@),
        r.lang@ == lang@,
{
    let mut full = String::new();
    let ghost v = proto::segments_view(segments@);
    let mut i: usize = 0;
    while i < segments.len()
        invariant
            i <= segments.len(),
            v == proto::segments_view(segments@),
            full@ == all_text(v.take(i as int)),
        decreases segments.len() - i,
    {
        full.append(segments[i].text.as_str());
        proof {
            assert(v.take(i + 1).drop_last() == v.take(i as int));
        }
        i += 1;
    }
    assert(v.take(i as int) == v);
    InferResponse {
        session_id,
        text: text::trimmed(full.as_str()),
        segments,
        lang,
        duration_ms: 0,
    }
}

// ---- The worker ---------------------------------------------------------

/// The worker, which runs one request after the other.
#[derive(Debug, Clone, Copy, PartialEq, Eq)]
pub struct InferenceWorker;

/// What the worker sends back for a request of `session_id`: the backend's
/// answer, timed when the backend did not time it, or an empty transcript when
/// there is none.
pub open spec fn worker_response(
    session_id: u128,
    result: Result<ResponseView, BackendError>,
    elapsed_ms: u64,
) -> ResponseView {
    match result {
        Ok(r) => ResponseView {
            duration_ms: if r.duration_ms == 0 {
                elapsed_ms
            } else {
                r.duration_ms
            },
            ..r
        },
        Err(_) => ResponseView {
            session_id,
            text: Seq::empty(),
            segments: Seq::empty(),
            lang: Seq::empty(),
            duration_ms: elapsed_ms,
        },
    }
}

/// What a result says.
pub open spec fn result_view(r: Result<InferResponse, BackendError>) -> Result<
    ResponseView,
    BackendError,
> {
    match r {
        Ok(x) => Ok(x@),
        Err(e) => Err(e),
    }
}

impl InferenceWorker {
    /// What is sent back once the backend has run.
    pub fn finish(
        session_id: u128,
        result: Result<InferResponse, BackendError>,
        elapsed_ms: u64,
    ) -> (r: InferResponse)
        ensures
            r@ == worker_response(session_id, result_view(result), elapsed_ms),
    {
        match result {
            Ok(resp) => {
                let mut resp = resp;
                if resp.duration_ms == 0 {
                    resp.duration_ms = elapsed_ms;
                }
                resp
            },
            Err(_) => {
                let r = InferResponse {
                    session_id,
                    text: String::new(),
                    segments: Vec::new(),
                    lang: String::new(),
                    duration_ms: elapsed_ms,
                };
                assert(r@.segments =~= Seq::<SegmentView>::empty());
                r
            },
        }
    }
}

/// An answer goes back to the session that asked, with the stand-in as with any
/// backend that keeps the id, and when the backend fails.
pub proof fn law_answer_keeps_the_session(
    req: RequestView,
    result: Result<ResponseView, BackendError>,
    elapsed_ms: u64,
)
    requires
        result is Ok ==> result->Ok_0.session_id == req.session_id,
    ensures
        worker_response(req.session_id, result, elapsed_ms).session_id == req.session_id,
        mock_response(req).session_id == req.session_id,
{
}

/// A worker hands on what the backend gave: the text, the segments and the language.
/// Only a missing duration is filled in. After a failure the client gets an empty
/// transcript.
pub proof fn law_worker_hands_on_the_answer(
    id: u128,
    r: ResponseView,
    e: BackendError,
    elapsed_ms: u64,
)
    ensures
        ({
            let out = worker_response(id, Ok(r), elapsed_ms);
            &&& out.text == r.text
            &&& out.segments == r.segments
            &&& out.lang == r.lang
            &&& out.session_id == r.session_id
            &&& r.duration_ms > 0 ==> out.duration_ms == r.duration_ms
            &&& r.duration_ms == 0 ==> out.duration_ms == elapsed_ms
        }),
        ({
            let out = worker_response(id, Err(e), elapsed_ms);
            &&& out.text.len() == 0
            &&& out.segments.len() == 0
            &&& out.lang.len() == 0
            &&& out.session_id == id
            &&& out.duration_ms == elapsed_ms
        }),
{
}

/// The text of segments in a row is their texts in a row.
pub proof fn law_texts_follow_each_other(a: Seq<SegmentView>, b: Seq<SegmentView>, x: SegmentView)
    ensures
        all_text(a + b) == all_text(a) + all_text(b),
        all_text(seq![x]) == x.text,
        all_text(Seq::empty()) == Seq::<char>::empty(),
    decreases b.len(),
{
    reveal_with_fuel(all_text, 2);
    assert(seq![x].drop_last() =~= Seq::empty());
    assert(all_text(seq![x]) =~= x.text);
    if b.len() == 0 {
        assert(a + b =~= a);
        assert(all_text(a) + all_text(b) =~= all_text(a));
    } else {
        law_texts_follow_each_other(a, b.drop_last(), x);
        assert((a + b).drop_last() =~= a + b.drop_last());
        assert(all_text(a + b) =~= all_text(a) + all_text(b));
    }
}

/// The stand-in answers for the session that asked, in the language that was asked
/// for, with one segment that spans the audio: sixteen samples are a millisecond.
pub proof fn law_stand_in_spans_the_audio(req: RequestView)
    ensures
        ({
            let r = mock_response(req);
            &&& r.session_id == req.session_id
            &&& r.text == "mock-session="@ + session::id_text(req.session_id)
            &&& req.language is Some ==> r.lang == req.language->0
            &&& req.language is None ==> r.lang == "en"@
            &&& r.segments.len() == 1
            &&& r.segments[0].text == r.text
            &&& r.segments[0].t0_ms == 0
            &&& req.samples.len() < 0x100_0000 ==> r.segments[0].t1_ms == req.samples.len() / 16
            &&& r.duration_ms == 0
        }),
{
    let n = req.samples.len();
    if n < 0x100_0000 {
        assert(half_even(n as int, 1) == n);
        assert(round_bits(n, 0x100_0000, 1) == n);
    }
}

/// Rounding is to the nearest multiple, and to an even one between two.
pub proof fn law_rounding_is_to_the_nearest(n: int, unit: int)
    requires
        0 <= n,
        0 < unit,
    ensures
        ({
            let q = half_even(n, unit);
            &&& 2 * (q * unit - n) <= unit
            &&& 2 * (n - q * unit) <= unit
            &&& (2 * (q * unit - n) == unit || 2 * (n - q * unit) == unit) ==> q % 2 == 0
        }),
{
    let q = n / unit;
    let r = n % unit;
    assert(n == q * unit + r && 0 <= r < unit) by {
        vstd::arithmetic::div_mod::lemma_fundamental_div_mod(n, unit);
        vstd::arithmetic::mul::lemma_mul_is_commutative(unit, q);
    }
    assert((q + 1) * unit == q * unit + unit) by (nonlinear_arith);
}

/// What is said of each failure of a backend.
pub proof fn law_backend_failures_are_told_apart(e: BackendError)
    ensures
        e is NotReady ==> e.text() == "backend not ready: "@ + e->NotReady_0@,
        e is Inference ==> e.text() == "inference failed: "@ + e->Inference_0@,
        e is Overloaded ==> e.text() == "backend overloaded"@,
{
}

} // verus!
