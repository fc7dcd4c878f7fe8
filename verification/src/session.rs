//! Sessions and the map that holds them.
//!
//! The server makes up the id of a session; none is ever taken from a client.
//! The map is the only state that sessions share, and nothing that is done for
//! one id touches another.

use vstd::prelude::*;

use crate::proto;
use crate::text;

verus! {

// ---- Ids ----------------------------------------------------------------

/// Whether a number is a random id: version four, the standard variant.
pub open spec fn is_random_id(id: u128) -> bool {
    &&& id as int / 0x1000_0000_0000_0000_0000 % 16 == 4
    &&& id as int / 0x4000_0000_0000_0000 % 4 == 2
}

/// `uuid::Uuid::new_v4`, as a number: random but for the version and the variant.
#[verifier::external_body]
fn random_id() -> (r: u128)
    ensures
        is_random_id(r),
{
    uuid::Uuid::new_v4().as_u128()
}

/// The low `n` digits of a number to the base sixteen.
pub open spec fn hex(id: nat, n: nat) -> Seq<char>
    decreases n,
{
    if n == 0 {
        Seq::empty()
    } else {
        hex(id / 16, (n - 1) as nat).push(proto::hex_digit(id as int % 16))
    }
}

/// An id as text: thirty-two digits in groups of eight, four, four, four and
/// twelve.
pub open spec fn id_text(id: u128) -> Seq<char> {
    let h = hex(id as nat, 32);
    h.subrange(0, 8) + seq!['-'] + h.subrange(8, 12) + seq!['-'] + h.subrange(12, 16) + seq!['-']
        + h.subrange(16, 20) + seq!['-'] + h.subrange(20, 32)
}

/// The low `n` digits of a number to the base sixteen.
fn hex_chars(id: u128, n: u8) -> (r: Vec<char>)
    ensures
        r@ == hex(id as nat, n as nat),
        r@.len() == n,
    decreases n,
{
    if n == 0 {
        return Vec::new();
    }
    let mut v = hex_chars(id / 16, n - 1);
    v.push(proto::to_hex_digit((id % 16) as u8));
    v
}

/// An id as text.
pub fn session_id_text(id: u128) -> (r: String)
    ensures
        r@ == id_text(id),
{
    let h = hex_chars(id, 32);
    let s = h.as_slice();
    let mut r = text::string_of(s, 0, 8);
    proof {
        reveal_strlit("-");
        assert("-"@ == seq!['-']);
    }
    r.append("-");
    r.append(text::string_of(s, 8, 12).as_str());
    r.append("-");
    r.append(text::string_of(s, 12, 16).as_str());
    r.append("-");
    r.append(text::string_of(s, 16, 20).as_str());
    r.append("-");
    r.append(text::string_of(s, 20, 32).as_str());
    r
}

// ---- One session --------------------------------------------------------

/// What goes to a client besides the answers to its own frames.
#[derive(Debug, Clone, PartialEq, Eq)]
pub enum OutboundMessage {
    Payload(proto::Payload),
    Close,
}

/// The state of a session.
#[derive(Debug, PartialEq, Eq)]
pub struct SessionState {
    /// The language; none to detect it.
    pub language: Option<String>,
    /// Whether to translate to English.
    pub translate: bool,
    /// When the client was last heard of, in milliseconds.
    pub last_activity_ms: u64,
    /// How many messages may wait for the client.
    pub buffer: usize,
}

/// The state of a session, as values.
pub struct SessionView {
    pub language: Option<Seq<char>>,
    pub translate: bool,
    pub last_activity_ms: u64,
    pub buffer: usize,
}

impl View for SessionState {
    type V = SessionView;

    open spec fn view(&self) -> SessionView {
        SessionView {
            language: text::opt_text(self.language),
            translate: self.translate,
            last_activity_ms: self.last_activity_ms,
            buffer: self.buffer,
        }
    }
}

/// A session that begins now.
pub open spec fn begun(buffer: usize, now_ms: u64) -> SessionView {
    SessionView { language: None, translate: false, last_activity_ms: now_ms, buffer }
}

/// Whether a session has been silent for longer than the timeout. A clock that
/// goes back counts as no time.
pub open spec fn idle_for(s: SessionView, timeout_ms: u64, now_ms: u64) -> bool {
    let elapsed = if now_ms > s.last_activity_ms {
        now_ms - s.last_activity_ms
    } else {
        0
    };
    elapsed > timeout_ms
}

impl SessionState {
    /// A session that begins now, for which so many messages may wait.
    pub fn new(buffer: usize, now_ms: u64) -> (r: Self)
        ensures
            r@ == begun(buffer, now_ms),
    {
        SessionState { language: None, translate: false, last_activity_ms: now_ms, buffer }
    }

    /// The client has been heard of.
    pub fn touch(&mut self, now_ms: u64)
        ensures
            final(self)@ == (SessionView { last_activity_ms: now_ms, ..old(self)@ }),
    {
        self.last_activity_ms = now_ms;
    }

    /// Whether the session has been silent for longer than the timeout.
    pub fn is_idle(&self, timeout_ms: u64, now_ms: u64) -> (r: bool)
        ensures
            r == idle_for(self@, timeout_ms, now_ms),
    {
        let elapsed: u64 = if now_ms > self.last_activity_ms {
            now_ms - self.last_activity_ms
        } else {
            0
        };
        elapsed > timeout_ms
    }

    /// Change the language.
    pub fn set_language(&mut self, lang: Option<String>)
        ensures
            final(self)@ == (SessionView { language: text::opt_text(lang), ..old(self)@ }),
    {
        self.language = lang;
    }

    /// The language.
    pub fn language(&self) -> (r: Option<String>)
        ensures
            text::opt_text(r) == self@.language,
    {
        text::own_opt(&self.language)
    }

    /// Change whether to translate.
    pub fn set_translate(&mut self, v: bool)
        ensures
            final(self)@ == (SessionView { translate: v, ..old(self)@ }),
    {
        self.translate = v;
    }

    /// Whether to translate.
    pub fn translate(&self) -> (r: bool)
        ensures
            r == self@.translate,
    {
        self.translate
    }
}

// ---- All sessions -------------------------------------------------------

/// What a `DashMap` of sessions holds.
pub uninterp spec fn sessions(m: dashmap::DashMap<u128, (Option<String>, bool, u64, usize)>) -> Map<
    u128,
    SessionView,
>;

/// A stored session, as values.
pub open spec fn stored_view(s: (Option<String>, bool, u64, usize)) -> SessionView {
    SessionView {
        language: text::opt_text(s.0),
        translate: s.1,
        last_activity_ms: s.2,
        buffer: s.3,
    }
}

/// There is no session.
pub open spec fn no_sessions() -> Map<u128, SessionView> {
    Map::empty()
}

/// `DashMap::new`: a map without entries.
#[verifier::external_body]
fn new_store() -> (r: dashmap::DashMap<u128, (Option<String>, bool, u64, usize)>)
    ensures
        sessions(r) == no_sessions(),
{
    dashmap::DashMap::new()
}

/// `DashMap::get`: the value under a key, copied.
#[verifier::external_body]
fn get_stored(m: &dashmap::DashMap<u128, (Option<String>, bool, u64, usize)>, id: u128) -> (r: Option<
    (Option<String>, bool, u64, usize),
>)
    ensures
        match r {
            Some(s) => sessions(*m).dom().contains(id) && sessions(*m)[id] == stored_view(s),
            None => !sessions(*m).dom().contains(id),
        },
{
    m.get(&id).map(|e| e.value().clone())
}

/// `DashMap::insert`: the value under a key is replaced.
#[verifier::external_body]
fn put_stored(
    m: &mut dashmap::DashMap<u128, (Option<String>, bool, u64, usize)>,
    id: u128,
    s: (Option<String>, bool, u64, usize),
)
    ensures
        sessions(*final(m)) == sessions(*old(m)).insert(id, stored_view(s)),
{
    m.insert(id, s);
}

/// `DashMap::remove`: the entry goes, and its value is handed out.
#[verifier::external_body]
fn remove_stored(m: &mut dashmap::DashMap<u128, (Option<String>, bool, u64, usize)>, id: u128) -> (r:
    Option<(Option<String>, bool, u64, usize)>)
    ensures
        sessions(*final(m)) == sessions(*old(m)).remove(id),
        match r {
            Some(s) => sessions(*old(m)).dom().contains(id) && sessions(*old(m))[id]
                == stored_view(s),
            None => !sessions(*old(m)).dom().contains(id),
        },
{
    m.remove(&id).map(|e| e.1)
}

/// Whether a list has exactly the entries of a map, each once.
pub open spec fn lists(v: Seq<(u128, (Option<String>, bool, u64, usize))>, m: Map<u128, SessionView>) -> bool {
    &&& forall|i: int|
        0 <= i < v.len() ==> m.dom().contains((#[trigger] v[i]).0) && m[v[i].0] == stored_view(
            v[i].1,
        )
    &&& forall|i: int, j: int| 0 <= i < j < v.len() ==> (#[trigger] v[i]).0 != (#[trigger] v[j]).0
    &&& forall|id: u128|
        m.dom().contains(id) ==> exists|i: int| 0 <= i < v.len() && (#[trigger] v[i]).0 == id
}

/// `DashMap::iter`: every entry once, copied, in an order that is not said.
#[verifier::external_body]
fn list_stored(m: &dashmap::DashMap<u128, (Option<String>, bool, u64, usize)>) -> (r: Vec<
    (u128, (Option<String>, bool, u64, usize)),
>)
    ensures
        lists(r@, sessions(*m)),
{
    m.iter().map(|e| (*e.key(), e.value().clone())).collect()
}

/// All sessions by id.
#[derive(Debug)]
pub struct SessionMap {
    store: dashmap::DashMap<u128, (Option<String>, bool, u64, usize)>,
}

impl View for SessionMap {
    type V = Map<u128, SessionView>;

    closed spec fn view(&self) -> Map<u128, SessionView> {
        sessions(self.store)
    }
}

/// A map without sessions.
pub fn new_session_map() -> (r: SessionMap)
    ensures
        r@ == no_sessions(),
{
    SessionMap { store: new_store() }
}

/// How many messages may wait for a client, unless said otherwise.
pub const OUTBOUND_BUFFER: usize = 64;

/// Begin a session under an id of the server's making. At most `buffer` messages
/// wait for its client.
pub fn register(map: &mut SessionMap, buffer: usize, now_ms: u64) -> (r: u128)
    ensures
        is_random_id(r),
        final(map)@ == old(map)@.insert(r, begun(buffer, now_ms)),
{
    let id: u128 = random_id();
    register_as(map, id, buffer, now_ms);
    id
}

/// Begin a session under an id.
pub fn register_as(map: &mut SessionMap, id: u128, buffer: usize, now_ms: u64)
    ensures
        final(map)@ == old(map)@.insert(id, begun(buffer, now_ms)),
{
    map.put(id, SessionState::new(buffer, now_ms));
}

/// End a session; for an id that is not there nothing happens.
pub fn unregister(map: &mut SessionMap, id: u128) -> (r: Option<SessionState>)
    ensures
        final(map)@ == old(map)@.remove(id),
        match r {
            Some(s) => old(map)@.dom().contains(id) && s@ == old(map)@[id],
            None => !old(map)@.dom().contains(id),
        },
{
    match remove_stored(&mut map.store, id) {
        Some(s) => Some(
            SessionState { language: s.0, translate: s.1, last_activity_ms: s.2, buffer: s.3 },
        ),
        None => None,
    }
}

/// How many messages may wait for a session's client; nothing when the session is
/// not there.
pub fn outbound_for(map: &SessionMap, id: u128) -> (r: Option<usize>)
    ensures
        r == if map@.dom().contains(id) {
            Some(map@[id].buffer)
        } else {
            None
        },
{
    match get_stored(&map.store, id) {
        Some(s) => Some(s.3),
        None => None,
    }
}

impl SessionMap {
    /// The state of a session.
    pub fn get(&self, id: u128) -> (r: Option<SessionState>)
        ensures
            match r {
                Some(s) => self@.dom().contains(id) && s@ == self@[id],
                None => !self@.dom().contains(id),
            },
    {
        match get_stored(&self.store, id) {
            Some(s) => Some(
                SessionState { language: s.0, translate: s.1, last_activity_ms: s.2, buffer: s.3 },
            ),
            None => None,
        }
    }

    /// Set the state of a session.
    pub fn put(&mut self, id: u128, s: SessionState)
        ensures
            final(self)@ == old(self)@.insert(id, s@),
    {
        put_stored(
            &mut self.store,
            id,
            (s.language, s.translate, s.last_activity_ms, s.buffer),
        );
    }

    /// The ids of the sessions that have been silent for longer than the timeout.
    pub fn idle_ids(&self, timeout_ms: u64, now_ms: u64) -> (r: Vec<u128>)
        ensures
            r@.no_duplicates(),
            forall|id: u128| #[trigger]
                r@.contains(id) <==> self@.dom().contains(id) && idle_for(
                    self@[id],
                    timeout_ms,
                    now_ms,
                ),
    {
        let all = list_stored(&self.store);
        let mut out: Vec<u128> = Vec::new();
        let mut i: usize = 0;
        while i < all.len()
            invariant
                i <= all.len(),
                lists(all@, self@),
                out@.no_duplicates(),
                forall|id: u128| #[trigger]
                    out@.contains(id) <==> exists|k: int|
                        0 <= k < i && (#[trigger] all@[k]).0 == id && idle_for(
                            self@[id],
                            timeout_ms,
                            now_ms,
                        ),
            decreases all.len() - i,
        {
            let id: u128 = all[i].0;
            let last: u64 = all[i].1.2;
            let s = SessionState::new(0, last);
            let ghost before = out@;
            assert(self@[id] == stored_view(all@[i as int].1));
            if s.is_idle(timeout_ms, now_ms) {
                assert(!before.contains(id)) by {
                    if before.contains(id) {
                        let k = choose|k: int|
                            0 <= k < i && (#[trigger] all@[k]).0 == id && idle_for(
                                self@[id],
                                timeout_ms,
                                now_ms,
                            );
                        assert(all@[k].0 != all@[i as int].0);
                    }
                }
                out.push(id);
                assert forall|x: u128| #[trigger] out@.contains(x) <==> exists|k: int|
                    0 <= k < i + 1 && (#[trigger] all@[k]).0 == x && idle_for(
                        self@[x],
                        timeout_ms,
                        now_ms,
                    ) by {
                    if out@.contains(x) {
                        let j = choose|j: int| 0 <= j < out@.len() && out@[j] == x;
                        if j < before.len() {
                            assert(before[j] == x);
                            assert(before.contains(x));
                        } else {
                            assert(all@[i as int].0 == x);
                        }
                    }
                    if exists|k: int|
                        0 <= k < i + 1 && (#[trigger] all@[k]).0 == x && idle_for(
                            self@[x],
                            timeout_ms,
                            now_ms,
                        ) {
                        let k = choose|k: int|
                            0 <= k < i + 1 && (#[trigger] all@[k]).0 == x && idle_for(
                                self@[x],
                                timeout_ms,
                                now_ms,
                            );
                        if k < i {
                            assert(before.contains(x));
                            let j = choose|j: int| 0 <= j < before.len() && before[j] == x;
                            assert(out@[j] == x);
                        } else {
                            assert(out@[before.len() as int] == x);
                        }
                    }
                }
            }
            i += 1;
        }
        assert forall|id: u128| #[trigger] out@.contains(id) <==> self@.dom().contains(id)
            && idle_for(self@[id], timeout_ms, now_ms) by {
            if self@.dom().contains(id) {
                let k = choose|k: int| 0 <= k < all@.len() && (#[trigger] all@[k]).0 == id;
                assert(all@[k].0 == id);
            }
        }
        out
    }
}

// ---- Laws ---------------------------------------------------------------

/// A session is idle exactly when its client was last heard of longer ago than the
/// timeout.
pub proof fn law_idle_is_longer_than_the_timeout(s: SessionView, timeout_ms: u64, now_ms: u64)
    ensures
        idle_for(s, timeout_ms, now_ms) <==> now_ms > s.last_activity_ms + timeout_ms,
{
}

/// A new session detects the language, does not translate, and was heard of when it
/// began; none of its siblings changes.
pub proof fn law_new_session_has_no_settings(buffer: usize, now_ms: u64)
    ensures
        begun(buffer, now_ms).language is None,
        !begun(buffer, now_ms).translate,
        begun(buffer, now_ms).last_activity_ms == now_ms,
        begun(buffer, now_ms).buffer == buffer,
        OUTBOUND_BUFFER == 64,
        no_sessions().dom() =~= Set::<u128>::empty(),
{
}

/// Whether a number needs at most `n` digits to the base sixteen.
spec fn fits(a: nat, n: nat) -> bool
    decreases n,
{
    if n == 0 {
        a == 0
    } else {
        fits(a / 16, (n - 1) as nat)
    }
}

proof fn lemma_fits_more(a: nat, n: nat)
    requires
        fits(a / 0x1_0000, n),
    ensures
        fits(a, n + 4),
{
    reveal_with_fuel(fits, 5);
    assert(a / 16 / 16 / 16 / 16 == a / 0x1_0000);
}

proof fn lemma_fits_id(a: nat)
    requires
        a <= u128::MAX,
    ensures
        fits(a, 32),
{
    let b = a / 0x1_0000;
    let c = b / 0x1_0000;
    let d = c / 0x1_0000;
    let e = d / 0x1_0000;
    let f = e / 0x1_0000;
    let g = f / 0x1_0000;
    let h = g / 0x1_0000;
    assert(h / 0x1_0000 == 0);
    lemma_fits_more(h, 0);
    lemma_fits_more(g, 4);
    lemma_fits_more(f, 8);
    lemma_fits_more(e, 12);
    lemma_fits_more(d, 16);
    lemma_fits_more(c, 20);
    lemma_fits_more(b, 24);
    lemma_fits_more(a, 28);
}

proof fn lemma_hex(a: nat, n: nat)
    ensures
        hex(a, n).len() == n,
        forall|i: int|
            0 <= i < n ==> '0' <= #[trigger] hex(a, n)[i] <= '9' || 'a' <= hex(a, n)[i] <= 'f',
    decreases n,
{
    if n > 0 {
        lemma_hex(a / 16, (n - 1) as nat);
    }
}

proof fn lemma_hex_tells_apart(a: nat, b: nat, n: nat)
    requires
        fits(a, n) && fits(b, n),
        hex(a, n) == hex(b, n),
    ensures
        a == b,
    decreases n,
{
    if n > 0 {
        let m = (n - 1) as nat;
        lemma_hex(a / 16, m);
        lemma_hex(b / 16, m);
        assert(hex(a, n) == hex(a / 16, m).push(proto::hex_digit(a as int % 16)));
        assert(hex(b, n) == hex(b / 16, m).push(proto::hex_digit(b as int % 16)));
        assert(hex(a, n).last() == proto::hex_digit(a as int % 16));
        assert(hex(b, n).last() == proto::hex_digit(b as int % 16));
        assert(hex(a / 16, m) =~= hex(a, n).drop_last());
        assert(hex(b / 16, m) =~= hex(b, n).drop_last());
        lemma_hex_tells_apart(a / 16, b / 16, m);
        let x = a as int % 16;
        let y = b as int % 16;
        assert(proto::hex_digit(x) == proto::hex_digit(y));
        assert(proto::hex_digit(x) as int == if x < 10 {
            0x30 + x
        } else {
            0x57 + x
        });
        assert(proto::hex_digit(y) as int == if y < 10 {
            0x30 + y
        } else {
            0x57 + y
        });
    }
}

/// The text of an id has thirty-six characters: dashes in four places and small
/// digits to the base sixteen in the others. Two ids never share a text.
pub proof fn law_ids_have_their_own_text(a: u128, b: u128)
    ensures
        id_text(a).len() == 36,
        forall|i: int|
            0 <= i < 36 ==> if i == 8 || i == 13 || i == 18 || i == 23 {
                #[trigger] id_text(a)[i] == '-'
            } else {
                '0' <= id_text(a)[i] <= '9' || 'a' <= id_text(a)[i] <= 'f'
            },
        id_text(a) == id_text(b) ==> a == b,
{
    let h = hex(a as nat, 32);
    let k = hex(b as nat, 32);
    lemma_hex(a as nat, 32);
    lemma_hex(b as nat, 32);
    if id_text(a) == id_text(b) {
        let s = id_text(a);
        let t = id_text(b);
        assert(h =~= s.subrange(0, 8) + s.subrange(9, 13) + s.subrange(14, 18) + s.subrange(19, 23)
            + s.subrange(24, 36));
        assert(k =~= t.subrange(0, 8) + t.subrange(9, 13) + t.subrange(14, 18) + t.subrange(19, 23)
            + t.subrange(24, 36));
        lemma_fits_id(a as nat);
        lemma_fits_id(b as nat);
        lemma_hex_tells_apart(a as nat, b as nat, 32);
    }
}

} // verus!
