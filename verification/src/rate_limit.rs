//! Rate limits for each source address.
//!
//! Every address has a bucket of tokens. A request takes one token; the bucket
//! holds as many as the policy grants in a minute, starts full, and refills at
//! that rate. The machine's own addresses are not limited.
//!
//! Tokens are counted in units: one token is as many units as a minute has
//! nanoseconds, so a policy of `n` tokens in a minute adds `n` units in each
//! nanosecond and nothing is ever rounded.

use vstd::prelude::*;

use crate::net::{Endpoint, Ip};
use crate::text;

verus! {

/// The units of one token.
pub const TOKEN: u128 = 60_000_000_000;

/// One minute in nanoseconds.
pub const MINUTE_NS: u64 = 60_000_000_000;

/// After how many checks old buckets are looked for.
pub const SWEEP_EVERY: u64 = 1024;

/// How many requests a source address has in a minute.
#[derive(Debug, Clone, Copy, PartialEq, Eq, Structural)]
pub struct RateLimitPolicy {
    pub tokens_per_minute: u32,
}

impl RateLimitPolicy {
    /// The policy for speech frames.
    pub fn stt(per_min: u32) -> (r: Self)
        ensures
            r.tokens_per_minute == per_min,
    {
        RateLimitPolicy { tokens_per_minute: per_min }
    }

    /// The policy for chat requests.
    pub fn llm(per_min: u32) -> (r: Self)
        ensures
            r.tokens_per_minute == per_min,
    {
        RateLimitPolicy { tokens_per_minute: per_min }
    }
}

/// Why a request is refused.
#[derive(Debug, Clone, Copy, PartialEq, Eq, Structural)]
pub enum RateLimitError {
    /// The bucket is empty; in `retry_after_ms` it has a token again.
    Limited { ip: Ip, retry_after_ms: u64 },
}

impl RateLimitError {
    /// How long to wait, in milliseconds.
    pub open spec fn wait_ms(self) -> u64 {
        match self {
            RateLimitError::Limited { retry_after_ms, .. } => retry_after_ms,
        }
    }

    /// The message of the error.
    pub open spec fn text(self) -> Seq<char> {
        match self {
            RateLimitError::Limited { ip, retry_after_ms } => "rate limit exceeded for "@
                + ip.text() + ": retry after "@ + text::digits(retry_after_ms as nat) + " ms"@,
        }
    }

    /// The message of the error.
    pub fn message(&self) -> (r: String)
        ensures
            r@ == self.text(),
    {
        match self {
            RateLimitError::Limited { ip, retry_after_ms } => {
                let mut r = text::own("rate limit exceeded for ");
                r.append(ip.to_text().as_str());
                r.append(": retry after ");
                text::push_digits(&mut r, *retry_after_ms);
                r.append(" ms");
                r
            },
        }
    }

    /// How many whole seconds to wait, at least one.
    pub fn retry_after_secs(&self) -> (r: u64)
        ensures
            r == wait_secs(self.wait_ms()),
    {
        match self {
            RateLimitError::Limited { retry_after_ms, .. } => {
                let ms: u64 = *retry_after_ms;
                let mut secs: u64 = ms / 1000;
                if ms % 1000 != 0 {
                    secs += 1;
                }
                if secs < 1 {
                    secs = 1;
                }
                secs
            },
        }
    }
}

/// Milliseconds as whole seconds, rounded up, at least one.
pub open spec fn wait_secs(ms: u64) -> int {
    let up = (ms as int + 999) / 1000;
    if up < 1 {
        1
    } else {
        up
    }
}

// ---- One bucket ---------------------------------------------------------

/// A bucket: its units, and when they were counted.
pub struct BucketView {
    pub units: int,
    pub at: int,
}

/// The units of a full bucket.
pub open spec fn full(tpm: u32) -> int {
    tpm as int * TOKEN as int
}

/// The units of a bucket at a later time.
pub open spec fn units_at(b: BucketView, tpm: u32, now: int) -> int {
    let elapsed = if now > b.at {
        now - b.at
    } else {
        0
    };
    let grown = b.units + elapsed * tpm as int;
    if grown > full(tpm) {
        full(tpm)
    } else {
        grown
    }
}

/// When the bucket's units were counted last; a clock that goes back does not
/// move it.
pub open spec fn later(a: int, b: int) -> int {
    if a < b {
        b
    } else {
        a
    }
}

/// The bucket of an address that has none yet.
pub open spec fn fresh(tpm: u32, now: int) -> BucketView {
    BucketView { units: full(tpm), at: now }
}

/// Whether a request at `now` passes.
pub open spec fn admits(b: BucketView, tpm: u32, now: int) -> bool {
    units_at(b, tpm, now) >= TOKEN as int
}

/// The bucket after a request at `now`: a token less if it passed.
pub open spec fn after_check(b: BucketView, tpm: u32, now: int) -> BucketView {
    let units = units_at(b, tpm, now);
    BucketView {
        units: if units >= TOKEN as int {
            units - TOKEN as int
        } else {
            units
        },
        at: later(b.at, now),
    }
}

/// How many milliseconds pass until there is a token, rounded up; a rate of zero
/// never gives one.
pub open spec fn wait_of(units: int, tpm: u32) -> int {
    if tpm == 0 {
        u64::MAX as int / 2
    } else {
        (TOKEN as int - units + tpm as int * 1_000_000 - 1) / (tpm as int * 1_000_000)
    }
}

/// Whether a bucket has been full for a minute: it was full a minute before.
pub open spec fn idle(b: BucketView, tpm: u32, now: int) -> bool {
    now - b.at >= MINUTE_NS as int && units_at(b, tpm, now - MINUTE_NS as int) >= full(tpm)
}

/// Units refilled over some time.
fn refilled(units: u128, at: u64, tpm: u32, now: u64) -> (r: u128)
    requires
        units <= full(tpm),
    ensures
        r == units_at(BucketView { units: units as int, at: at as int }, tpm, now as int),
        r <= full(tpm),
{
    let elapsed: u64 = if now > at { now - at } else { 0 };
    proof {
        assert(0 <= elapsed as int * tpm as int <= u64::MAX as int * u32::MAX as int)
            by (nonlinear_arith)
            requires
                0 <= elapsed <= u64::MAX,
                0 <= tpm <= u32::MAX,
        ;
        assert(full(tpm) <= u32::MAX as int * TOKEN as int) by (nonlinear_arith)
            requires
                full(tpm) == tpm as int * TOKEN as int,
                0 <= tpm <= u32::MAX,
                TOKEN == 60_000_000_000,
        ;
    }
    let grown: u128 = units + elapsed as u128 * tpm as u128;
    let cap: u128 = tpm as u128 * TOKEN;
    if grown > cap {
        cap
    } else {
        grown
    }
}

/// Whether a bucket is kept when old ones are looked for.
fn keep_bucket(b: &(u128, u64), tpm: u32, now: u64) -> (r: bool)
    requires
        b.0 <= full(tpm),
    ensures
        r == !idle(bucket_view(*b), tpm, now as int),
{
    if now < b.1 || now - b.1 < MINUTE_NS {
        return true;
    }
    refilled(b.0, b.1, tpm, now - MINUTE_NS) < tpm as u128 * TOKEN
}

// ---- All buckets --------------------------------------------------------

/// What a `DashMap` of buckets holds.
pub uninterp spec fn buckets(m: dashmap::DashMap<(u8, u128), (u128, u64)>) -> Map<
    (u8, u128),
    (u128, u64),
>;

/// No address has a bucket.
pub open spec fn no_buckets() -> Map<(u8, u128), (u128, u64)> {
    Map::empty()
}

/// The buckets that have not been full for a minute.
pub open spec fn without_idle(
    m: Map<(u8, u128), (u128, u64)>,
    tpm: u32,
    now: int,
) -> Map<(u8, u128), (u128, u64)> {
    m.restrict(Set::new(|k: (u8, u128)| !idle(bucket_view(m[k]), tpm, now)))
}

/// A stored bucket, as values.
pub open spec fn bucket_view(b: (u128, u64)) -> BucketView {
    BucketView { units: b.0 as int, at: b.1 as int }
}

/// No bucket holds more than it can.
pub open spec fn within_capacity(m: Map<(u8, u128), (u128, u64)>, tpm: u32) -> bool {
    forall|k: (u8, u128)| m.dom().contains(k) ==> (#[trigger] m[k]).0 <= full(tpm)
}

/// `DashMap::new`: a map without entries.
#[verifier::external_body]
fn new_buckets() -> (r: dashmap::DashMap<(u8, u128), (u128, u64)>)
    ensures
        buckets(r) == no_buckets(),
{
    dashmap::DashMap::new()
}

/// `DashMap::get`: the value under a key, copied.
#[verifier::external_body]
fn get_bucket(m: &dashmap::DashMap<(u8, u128), (u128, u64)>, key: (u8, u128)) -> (r: Option<
    (u128, u64),
>)
    ensures
        match r {
            Some(v) => buckets(*m).dom().contains(key) && buckets(*m)[key] == v,
            None => !buckets(*m).dom().contains(key),
        },
{
    m.get(&key).map(|e| *e.value())
}

/// `DashMap::insert`: the value under a key is replaced.
#[verifier::external_body]
fn put_bucket(
    m: &mut dashmap::DashMap<(u8, u128), (u128, u64)>,
    key: (u8, u128),
    value: (u128, u64),
)
    ensures
        buckets(*final(m)) == buckets(*old(m)).insert(key, value),
{
    m.insert(key, value);
}

/// `DashMap::len`: the number of entries.
#[verifier::external_body]
fn count_buckets(m: &dashmap::DashMap<(u8, u128), (u128, u64)>) -> (r: usize)
    ensures
        r == buckets(*m).dom().len(),
{
    m.len()
}

/// `DashMap::retain`: exactly the entries that the closure accepts stay. The
/// closure only calls `keep_bucket`.
#[verifier::external_body]
fn retain_buckets(m: &mut dashmap::DashMap<(u8, u128), (u128, u64)>, tpm: u32, now: u64)
    requires
        within_capacity(buckets(*old(m)), tpm),
    ensures
        buckets(*final(m)) == without_idle(buckets(*old(m)), tpm, now as int),
{
    m.retain(|_, b| keep_bucket(b, tpm, now));
}

/// Four segments as one number.
pub open spec fn four(a: u16, b: u16, c: u16, d: u16) -> int {
    a as int * 0x1_0000_0000_0000 + b as int * 0x1_0000_0000 + c as int * 0x1_0000 + d as int
}

/// The key of an address: its family, and its bits as a number.
pub open spec fn key_of(ip: Ip) -> (u8, u128) {
    match ip {
        Ip::V4(a, b, c, d) => (4u8, (((a as int * 256 + b) * 256 + c) * 256 + d) as u128),
        Ip::V6(a, b, c, d, e, f, g, h) => (
            6u8,
            (four(a, b, c, d) * 0x1_0000_0000_0000_0000 + four(e, f, g, h)) as u128,
        ),
    }
}

/// The key of an address.
fn to_key(ip: Ip) -> (r: (u8, u128))
    ensures
        r == key_of(ip),
{
    match ip {
        Ip::V4(a, b, c, d) => {
            let n: u128 = ((a as u128 * 256 + b as u128) * 256 + c as u128) * 256 + d as u128;
            (4, n)
        },
        Ip::V6(a, b, c, d, e, f, g, h) => {
            let hi: u128 = a as u128 * 0x1_0000_0000_0000 + b as u128 * 0x1_0000_0000
                + c as u128 * 0x1_0000 + d as u128;
            let lo: u128 = e as u128 * 0x1_0000_0000_0000 + f as u128 * 0x1_0000_0000
                + g as u128 * 0x1_0000 + h as u128;
            (6, hi * 0x1_0000_0000_0000_0000 + lo)
        },
    }
}

/// Different addresses have different keys.
pub proof fn law_keys_tell_addresses_apart(x: Ip, y: Ip)
    requires
        key_of(x) == key_of(y),
    ensures
        x == y,
{
    match (x, y) {
        (Ip::V6(a, b, c, d, e, f, g, h), Ip::V6(i, j, k, l, m, n, o, p)) => {
            lemma_four(a, b, c, d, i, j, k, l);
            lemma_four(e, f, g, h, m, n, o, p);
        },
        _ => {},
    }
}

/// Four segments as one number say which they are.
proof fn lemma_four(a: u16, b: u16, c: u16, d: u16, i: u16, j: u16, k: u16, l: u16)
    ensures
        0 <= four(a, b, c, d) < 0x1_0000_0000_0000_0000,
        0 <= four(i, j, k, l) < 0x1_0000_0000_0000_0000,
        four(a, b, c, d) == four(i, j, k, l) ==> a == i && b == j && c == k && d == l,
{
}

/// The rate limits of all source addresses.
#[derive(Debug)]
pub struct RateLimiter {
    policy: RateLimitPolicy,
    store: dashmap::DashMap<(u8, u128), (u128, u64)>,
    checks: u64,
}

/// What a limiter knows.
pub struct LimiterView {
    /// The tokens in a minute.
    pub tpm: u32,
    /// The buckets by key.
    pub buckets: Map<(u8, u128), (u128, u64)>,
    /// How many checks there have been.
    pub checks: u64,
}

impl View for RateLimiter {
    type V = LimiterView;

    closed spec fn view(&self) -> LimiterView {
        LimiterView {
            tpm: self.policy.tokens_per_minute,
            buckets: buckets(self.store),
            checks: self.checks,
        }
    }
}

/// The bucket of an address, a fresh one when it has none.
pub open spec fn bucket_of(v: LimiterView, ip: Ip, now: int) -> BucketView {
    if v.buckets.dom().contains(key_of(ip)) {
        bucket_view(v.buckets[key_of(ip)])
    } else {
        fresh(v.tpm, now)
    }
}

/// The limiter once it has counted a check; every so often the idle buckets go.
pub open spec fn counted(v: LimiterView, now: int) -> LimiterView {
    LimiterView {
        checks: if v.checks == u64::MAX {
            0
        } else {
            (v.checks + 1) as u64
        },
        buckets: if v.checks % SWEEP_EVERY == SWEEP_EVERY - 1 {
            without_idle(v.buckets, v.tpm, now)
        } else {
            v.buckets
        },
        ..v
    }
}

/// The limiter after a check.
pub open spec fn checked(v: LimiterView, ip: Ip, now: int) -> LimiterView {
    if ip.loopback() {
        v
    } else {
        let c = counted(v, now);
        let b = after_check(bucket_of(c, ip, now), v.tpm, now);
        LimiterView { buckets: c.buckets.insert(key_of(ip), (b.units as u128, b.at as u64)), ..c }
    }
}

/// The answer to a check.
pub open spec fn answer(v: LimiterView, ip: Ip, now: int) -> Result<(), RateLimitError> {
    let b = bucket_of(counted(v, now), ip, now);
    if ip.loopback() || admits(b, v.tpm, now) {
        Ok(())
    } else {
        Err(
            RateLimitError::Limited {
                ip,
                retry_after_ms: wait_of(units_at(b, v.tpm, now), v.tpm) as u64,
            },
        )
    }
}

impl RateLimiter {
    /// No bucket holds more than it can.
    pub open spec fn wf(&self) -> bool {
        within_capacity(self@.buckets, self@.tpm)
    }

    /// A limiter under a policy; no address has a bucket.
    pub fn new(policy: RateLimitPolicy) -> (r: Self)
        ensures
            r.wf(),
            r@ == (LimiterView {
                tpm: policy.tokens_per_minute,
                buckets: no_buckets(),
                checks: 0,
            }),
    {
        RateLimiter { policy, store: new_buckets(), checks: 0 }
    }

    /// Let the buckets go that have been full for a minute.
    pub fn sweep_idle_buckets(&mut self, now_ns: u64)
        requires
            old(self).wf(),
        ensures
            final(self).wf(),
            final(self)@ == (LimiterView {
                buckets: without_idle(old(self)@.buckets, old(self)@.tpm, now_ns as int),
                ..old(self)@
            }),
    {
        let tpm: u32 = self.policy.tokens_per_minute;
        retain_buckets(&mut self.store, tpm, now_ns);
    }

    /// Take one token for `ip` at the time `now_ns` of a clock that does not
    /// go back. The machine's own addresses always pass and have no bucket.
    pub fn check(&mut self, ip: Ip, now_ns: u64) -> (r: Result<(), RateLimitError>)
        requires
            old(self).wf(),
        ensures
            final(self).wf(),
            final(self)@ == checked(old(self)@, ip, now_ns as int),
            r == answer(old(self)@, ip, now_ns as int),
    {
        if ip.is_loopback() {
            return Ok(());
        }
        let ghost v0 = self@;
        let due = self.checks % SWEEP_EVERY == SWEEP_EVERY - 1;
        if due {
            self.sweep_idle_buckets(now_ns);
        }
        self.checks = if self.checks == u64::MAX { 0 } else { self.checks + 1 };
        let ghost c = counted(v0, now_ns as int);
        assert(self@ == c);
        let tpm: u32 = self.policy.tokens_per_minute;
        let key = to_key(ip);
        proof {
            lemma_capacity(tpm);
        }
        let cap: u128 = tpm as u128 * TOKEN;
        let (units, at): (u128, u64) = match get_bucket(&self.store, key) {
            Some(b) => b,
            None => (cap, now_ns),
        };
        let ghost b = bucket_of(c, ip, now_ns as int);
        assert(b == bucket_view((units, at)));
        let have: u128 = refilled(units, at, tpm, now_ns);
        let at1: u64 = if at < now_ns { now_ns } else { at };
        if have >= TOKEN {
            put_bucket(&mut self.store, key, (have - TOKEN, at1));
            Ok(())
        } else {
            put_bucket(&mut self.store, key, (have, at1));
            let wait: u64 = if tpm > 0 {
                let per_ms: u128 = tpm as u128 * 1_000_000;
                let w: u128 = (TOKEN - have + per_ms - 1) / per_ms;
                proof {
                    assert(w <= TOKEN) by (nonlinear_arith)
                        requires
                            w == (TOKEN - have + per_ms - 1) / per_ms as int,
                            per_ms >= 1,
                            TOKEN == 60_000_000_000,
                            have < TOKEN,
                    ;
                }
                w as u64
            } else {
                u64::MAX / 2
            };
            Err(RateLimitError::Limited { ip, retry_after_ms: wait })
        }
    }

    /// The same for a caller that may not know its peer; such a one passes.
    pub fn check_opt(&mut self, ip: Option<Ip>, now_ns: u64) -> (r: Result<(), RateLimitError>)
        requires
            old(self).wf(),
        ensures
            final(self).wf(),
            match ip {
                Some(a) => final(self)@ == checked(old(self)@, a, now_ns as int) && r == answer(
                    old(self)@,
                    a,
                    now_ns as int,
                ),
                None => final(self)@ == old(self)@ && r is Ok,
            },
    {
        match ip {
            Some(a) => self.check(a, now_ns),
            None => Ok(()),
        }
    }

    /// The tokens in a minute.
    pub fn tokens_per_minute(&self) -> (r: u32)
        ensures
            r == self@.tpm,
    {
        self.policy.tokens_per_minute
    }

    /// How many addresses have a bucket.
    pub fn bucket_count(&self) -> (r: usize)
        ensures
            r == self@.buckets.dom().len(),
    {
        count_buckets(&self.store)
    }
}

/// The address of a peer, without its port.
pub fn ip_from_socket(addr: Endpoint) -> (r: Ip)
    ensures
        r == addr.ip,
{
    addr.ip
}

/// A full bucket fits its number type.
proof fn lemma_capacity(tpm: u32)
    ensures
        0 <= full(tpm) <= u32::MAX as int * TOKEN as int,
{
    assert(0 <= full(tpm) <= u32::MAX as int * TOKEN as int) by (nonlinear_arith)
        requires
            full(tpm) == tpm as int * TOKEN as int,
            0 <= tpm <= u32::MAX,
            TOKEN == 60_000_000_000,
    ;
}

// ---- Laws ---------------------------------------------------------------

/// The units that an address has at a time.
pub open spec fn available(v: LimiterView, ip: Ip, now: int) -> int {
    units_at(bucket_of(v, ip, now), v.tpm, now)
}

/// Time makes more of a rate.
proof fn lemma_more_time(a: int, b: int, tpm: u32)
    requires
        a <= b,
    ensures
        a * tpm as int <= b * tpm as int,
        (b - a) * tpm as int == b * tpm as int - a * tpm as int,
{
    assert(a * tpm as int <= b * tpm as int) by (nonlinear_arith)
        requires
            a <= b,
            0 <= tpm,
    ;
    assert((b - a) * tpm as int == b * tpm as int - a * tpm as int) by (nonlinear_arith);
}

/// Whatever a bucket holds, after a minute it is full: the capacity is what a
/// minute refills.
pub proof fn law_full_after_a_minute(b: BucketView, tpm: u32, now: int)
    requires
        0 <= b.units,
        now >= b.at + MINUTE_NS,
    ensures
        units_at(b, tpm, now) == full(tpm),
{
    lemma_more_time(MINUTE_NS as int, now - b.at, tpm);
    assert(MINUTE_NS as int * tpm as int == full(tpm)) by (nonlinear_arith)
        requires
            full(tpm) == tpm as int * TOKEN as int,
            TOKEN == 60_000_000_000,
            MINUTE_NS == 60_000_000_000,
    ;
}

/// To let idle buckets go changes nothing for anyone, now or later.
pub proof fn law_sweep_is_unobservable(v: LimiterView, ip: Ip, now: int, t: int)
    requires
        now <= t,
    ensures
        available(
            LimiterView { buckets: without_idle(v.buckets, v.tpm, now), ..v },
            ip,
            t,
        ) == available(v, ip, t),
{
    let k = key_of(ip);
    if v.buckets.dom().contains(k) && idle(bucket_view(v.buckets[k]), v.tpm, now) {
        let b = bucket_view(v.buckets[k]);
        lemma_more_time(now - MINUTE_NS as int - b.at, t - b.at, v.tpm);
        assert(units_at(b, v.tpm, t) == full(v.tpm));
        lemma_more_time(0, 0, v.tpm);
    }
}

/// An address passes exactly when it has a whole token, and is told exactly how
/// long the rest of a token takes.
pub proof fn law_answer_follows_units(v: LimiterView, ip: Ip, now: int)
    requires
        !ip.loopback(),
    ensures
        answer(v, ip, now) is Ok <==> available(v, ip, now) >= TOKEN as int,
        answer(v, ip, now) is Err ==> answer(v, ip, now)->Err_0.wait_ms() == wait_of(
            available(v, ip, now),
            v.tpm,
        ) as u64,
{
    law_sweep_is_unobservable(v, ip, now, now);
}

/// The machine's own addresses always pass and leave no trace.
pub proof fn law_loopback_passes(v: LimiterView, ip: Ip, now: int)
    requires
        ip.loopback(),
    ensures
        answer(v, ip, now) is Ok,
        checked(v, ip, now) == v,
{
}

/// A request takes one token from its own address, if it passes, and nothing if
/// it does not.
pub proof fn law_check_takes_one_token(v: LimiterView, ip: Ip, now: int)
    requires
        !ip.loopback(),
        within_capacity(v.buckets, v.tpm),
        0 <= now <= u64::MAX,
    ensures
        available(checked(v, ip, now), ip, now) == if answer(v, ip, now) is Ok {
            available(v, ip, now) - TOKEN as int
        } else {
            available(v, ip, now)
        },
{
    law_sweep_is_unobservable(v, ip, now, now);
    lemma_capacity(v.tpm);
    let c = counted(v, now);
    let b = bucket_of(c, ip, now);
    let have = units_at(b, v.tpm, now);
    lemma_more_time(0, later(b.at, now) - b.at, v.tpm);
    assert(0 <= b.units <= full(v.tpm));
    assert(0 <= have <= full(v.tpm)) by {
        if now > b.at {
            lemma_more_time(0, now - b.at, v.tpm);
        }
    }
    let b1 = after_check(b, v.tpm, now);
    assert(0 <= b1.units <= full(v.tpm));
    assert(bucket_of(checked(v, ip, now), ip, now) == b1);
    lemma_more_time(0, 0, v.tpm);
}

/// A request of one address changes nothing for another.
pub proof fn law_addresses_are_independent(v: LimiterView, x: Ip, y: Ip, now: int, t: int)
    requires
        x != y,
        now <= t,
    ensures
        available(checked(v, x, now), y, t) == available(v, y, t),
{
    if key_of(x) == key_of(y) {
        law_keys_tell_addresses_apart(x, y);
    }
    law_sweep_is_unobservable(v, y, now, t);
}

/// A new address has the tokens of a whole minute at once.
pub proof fn law_new_address_has_all_tokens(v: LimiterView, ip: Ip, now: int)
    requires
        !v.buckets.dom().contains(key_of(ip)),
    ensures
        available(v, ip, now) == v.tpm as int * TOKEN as int,
{
    lemma_more_time(0, 0, v.tpm);
}

/// A policy without tokens lets no other machine pass.
pub proof fn law_zero_budget_never_admits(v: LimiterView, ip: Ip, now: int)
    requires
        v.tpm == 0,
        !ip.loopback(),
    ensures
        answer(v, ip, now) is Err,
{
    lemma_capacity(0);
    assert(full(0) == 0);
    law_answer_follows_units(v, ip, now);
}

/// A bucket never gains faster than the policy's rate.
pub proof fn law_refill_is_bounded(b: BucketView, tpm: u32, now: int, t: int)
    requires
        b.units <= full(tpm),
        b.at <= now <= t,
    ensures
        units_at(b, tpm, now) <= units_at(b, tpm, t),
        units_at(b, tpm, t) <= units_at(b, tpm, now) + (t - now) * tpm as int,
{
    lemma_more_time(now - b.at, t - b.at, tpm);
    lemma_more_time(0, now - b.at, tpm);
    lemma_more_time(0, t - now, tpm);
    assert((t - b.at) - (now - b.at) == t - now);
}

/// Who waits as long as told has a token then.
pub proof fn law_retry_hint_suffices(b: BucketView, tpm: u32, now: int)
    requires
        tpm > 0,
        0 <= b.units < TOKEN,
        b.at == now,
    ensures
        admits(b, tpm, now + wait_of(b.units, tpm) * 1_000_000),
{
    let per_ms = tpm as int * 1_000_000;
    let need = TOKEN as int - b.units;
    let w = wait_of(b.units, tpm);
    assert(w * per_ms >= need) by (nonlinear_arith)
        requires
            w == (need + per_ms - 1) / per_ms,
            per_ms >= 1,
    ;
    assert(w >= 0) by (nonlinear_arith)
        requires
            w * per_ms >= need,
            need > 0,
            per_ms >= 1,
    ;
    let elapsed = w * 1_000_000;
    assert(elapsed * tpm as int == w * per_ms) by (nonlinear_arith)
        requires
            elapsed == w * 1_000_000,
            per_ms == tpm as int * 1_000_000,
    ;
    assert(full(tpm) >= TOKEN as int) by (nonlinear_arith)
        requires
            full(tpm) == tpm as int * TOKEN as int,
            tpm >= 1,
            TOKEN == 60_000_000_000,
    ;
    if elapsed == 0 {
        assert(w * per_ms == 0) by (nonlinear_arith)
            requires
                w == 0,
        ;
    }
}

/// The wait told in seconds covers the wait in milliseconds, is the least that does,
/// and is never nothing.
pub proof fn law_seconds_cover_the_wait(ms: u64)
    ensures
        wait_secs(ms) >= 1,
        wait_secs(ms) * 1000 >= ms,
        wait_secs(ms) > 1 ==> (wait_secs(ms) - 1) * 1000 < ms,
{
}

/// Who waits a millisecond less than told has no token yet.
pub proof fn law_retry_hint_is_the_least(b: BucketView, tpm: u32, now: int)
    requires
        tpm > 0,
        0 <= b.units < TOKEN,
        b.at == now,
    ensures
        wait_of(b.units, tpm) >= 1,
        !admits(b, tpm, now + (wait_of(b.units, tpm) - 1) * 1_000_000),
{
    let per_ms = tpm as int * 1_000_000;
    let need = TOKEN as int - b.units;
    let w = wait_of(b.units, tpm);
    assert(w >= 1 && (w - 1) * per_ms < need) by (nonlinear_arith)
        requires
            w == (need + per_ms - 1) / per_ms,
            per_ms >= 1,
            need >= 1,
    ;
    let elapsed = (w - 1) * 1_000_000;
    assert(elapsed * tpm as int == (w - 1) * per_ms) by (nonlinear_arith)
        requires
            elapsed == (w - 1) * 1_000_000,
            per_ms == tpm as int * 1_000_000,
    ;
    if elapsed == 0 {
        assert(0 * tpm as int == 0);
    }
}

/// Who is refused is told its own address and how long to wait.
pub proof fn law_refusal_names_the_address(v: LimiterView, ip: Ip, now: int)
    requires
        answer(v, ip, now) is Err,
    ensures
        answer(v, ip, now)->Err_0->ip == ip,
        answer(v, ip, now)->Err_0.text() == "rate limit exceeded for "@ + ip.text()
            + ": retry after "@ + text::digits(answer(v, ip, now)->Err_0.wait_ms() as nat)
            + " ms"@,
{
}

/// Of a bucket that holds whole tokens and does not refill, each check takes one, and
/// then none passes: an address has as many requests at once as its policy has tokens
/// in a minute.
pub proof fn law_tokens_are_requests(tpm: u32, now: int, n: nat)
    requires
        n <= tpm,
    ensures
        admits(BucketView { units: n as int * 60_000_000_000, at: now }, tpm, now) <==> n >= 1,
        n >= 1 ==> after_check(
            BucketView { units: n as int * 60_000_000_000, at: now },
            tpm,
            now,
        ) == (BucketView { units: (n - 1) as int * 60_000_000_000, at: now }),
        fresh(tpm, now) == (BucketView { units: tpm as int * 60_000_000_000, at: now }),
{
    lemma_more_time(0, 0, tpm);
    assert(n as int * 60_000_000_000 <= full(tpm)) by (nonlinear_arith)
        requires
            n <= tpm,
            full(tpm) == tpm as int * TOKEN as int,
            TOKEN == 60_000_000_000,
    ;
}

/// Old buckets are looked for in every check that is the last of 1024, and in no other.
pub proof fn law_when_old_buckets_go(v: LimiterView, now: int)
    ensures
        v.checks % 1024 == 1023 ==> counted(v, now).buckets == without_idle(v.buckets, v.tpm, now),
        v.checks % 1024 != 1023 ==> counted(v, now).buckets == v.buckets,
        v.checks < u64::MAX ==> counted(v, now).checks == v.checks + 1,
        counted(v, now).tpm == v.tpm,
{
}

} // verus!
