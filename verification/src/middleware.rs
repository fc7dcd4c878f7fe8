//! Headers on every answer, and which other origins may call.

use vstd::prelude::*;

use crate::http;
use crate::text;

verus! {

/// A header: its name and its value.
#[derive(Debug, Clone, Copy, PartialEq, Eq)]
pub struct HeaderPair {
    pub name: &'static str,
    pub value: &'static str,
}

/// What a page may load and talk to: its own origin, inline styles, local
/// WebAssembly, and blobs for media and workers.
pub const CONTENT_SECURITY_POLICY: &'static str =
    "default-src 'self'; script-src 'self' 'wasm-unsafe-eval'; style-src 'self' 'unsafe-inline'; img-src 'self' data:; font-src 'self'; connect-src 'self'; media-src 'self' blob:; worker-src 'self' blob:; object-src 'none'; base-uri 'self'; frame-ancestors 'none'";

/// The header that limits what a page may load.
pub fn security_headers_layer() -> (r: HeaderPair)
    ensures
        r.name@ == "content-security-policy"@,
        r.value@ == CONTENT_SECURITY_POLICY@,
{
    HeaderPair { name: "content-security-policy", value: CONTENT_SECURITY_POLICY }
}

/// The header that keeps the page's address from others.
pub fn referrer_policy_layer() -> (r: HeaderPair)
    ensures
        r.name@ == "referrer-policy"@,
        r.value@ == "no-referrer"@,
{
    HeaderPair { name: "referrer-policy", value: "no-referrer" }
}

/// The header that keeps the browser from guessing types.
pub fn nosniff_layer() -> (r: HeaderPair)
    ensures
        r.name@ == "x-content-type-options"@,
        r.value@ == "nosniff"@,
{
    HeaderPair { name: "x-content-type-options", value: "nosniff" }
}

/// A header, as values.
pub struct HeaderView {
    pub name: Seq<char>,
    pub value: Seq<char>,
}

impl View for HeaderPair {
    type V = HeaderView;

    open spec fn view(&self) -> HeaderView {
        HeaderView { name: self.name@, value: self.value@ }
    }
}

/// The headers that every response carries.
pub open spec fn every_response() -> Seq<HeaderView> {
    seq![
        HeaderView { name: "content-security-policy"@, value: CONTENT_SECURITY_POLICY@ },
        HeaderView { name: "referrer-policy"@, value: "no-referrer"@ },
        HeaderView { name: "x-content-type-options"@, value: "nosniff"@ },
    ]
}

/// Headers, as values.
pub open spec fn header_views(v: Seq<HeaderPair>) -> Seq<HeaderView> {
    v.map_values(|h: HeaderPair| h@)
}

/// The headers that every response carries.
pub fn response_headers() -> (r: Vec<HeaderPair>)
    ensures
        header_views(r@) == every_response(),
{
    let r: Vec<HeaderPair> = vec![
        security_headers_layer(),
        referrer_policy_layer(),
        nosniff_layer(),
    ];
    assert(header_views(r@) =~= every_response());
    r
}

/// Which other origins may call.
#[derive(Debug, Clone, PartialEq, Eq)]
pub struct CorsPolicy {
    /// The origins; when empty, none.
    pub origins: Vec<String>,
    /// The methods of a call.
    pub methods: Vec<String>,
    /// The headers that a call may set.
    pub headers: Vec<String>,
    /// How long a browser may keep a permission, in seconds; unsaid when there is
    /// nothing to permit.
    pub max_age_secs: Option<u64>,
}

/// Which other origins may call, as values.
pub struct PolicyView {
    pub origins: Seq<Seq<char>>,
    pub methods: Seq<Seq<char>>,
    pub headers: Seq<Seq<char>>,
    pub max_age_secs: Option<u64>,
}

impl View for CorsPolicy {
    type V = PolicyView;

    open spec fn view(&self) -> PolicyView {
        PolicyView {
            origins: text::texts(self.origins@),
            methods: text::texts(self.methods@),
            headers: text::texts(self.headers@),
            max_age_secs: self.max_age_secs,
        }
    }
}

/// The origins that can stand in a header.
pub open spec fn valid_origins(s: Seq<Seq<char>>) -> Seq<Seq<char>>
    decreases s.len(),
{
    if s.len() == 0 {
        Seq::empty()
    } else if http::header_bytes(text::utf8(s.last())) {
        valid_origins(s.drop_last()).push(s.last())
    } else {
        valid_origins(s.drop_last())
    }
}

/// The permission for a list of origins: for those that can stand in a header,
/// for an hour.
pub open spec fn policy_for(allow_origins: Seq<Seq<char>>) -> PolicyView {
    let origins = valid_origins(allow_origins);
    PolicyView {
        origins,
        methods: seq!["GET"@, "POST"@, "OPTIONS"@],
        headers: seq!["content-type"@, "authorization"@],
        max_age_secs: if origins.len() == 0 {
            None
        } else {
            Some(3600)
        },
    }
}

/// Which other origins may call: those listed that can stand in a header.
pub fn cors_layer(allow_origins: &Vec<String>) -> (r: CorsPolicy)
    ensures
        r@ == policy_for(text::texts(allow_origins@)),
{
    let ghost all = text::texts(allow_origins@);
    let mut origins: Vec<String> = Vec::new();
    let mut i: usize = 0;
    while i < allow_origins.len()
        invariant
            i <= allow_origins.len(),
            all == text::texts(allow_origins@),
            text::texts(origins@) == valid_origins(all.take(i as int)),
        decreases allow_origins.len() - i,
    {
        proof {
            assert(all.take(i + 1).drop_last() == all.take(i as int));
        }
        if http::is_header_value(allow_origins[i].as_str()) {
            let ghost before = text::texts(origins@);
            origins.push(allow_origins[i].clone());
            assert(text::texts(origins@) == before.push(all[i as int]));
        }
        i += 1;
    }
    assert(all.take(i as int) == all);
    assert(text::texts(origins@).len() == origins@.len());
    let max_age_secs: Option<u64> = if origins.len() == 0 { None } else { Some(3600) };
    let methods: Vec<String> = vec![text::own("GET"), text::own("POST"), text::own("OPTIONS")];
    let headers: Vec<String> = vec![text::own("content-type"), text::own("authorization")];
    assert(text::texts(methods@) == seq!["GET"@, "POST"@, "OPTIONS"@]);
    assert(text::texts(headers@) == seq!["content-type"@, "authorization"@]);
    CorsPolicy { origins, methods, headers, max_age_secs }
}

/// Without a list no other origin may call.
pub proof fn law_no_list_no_origin()
    ensures
        policy_for(Seq::empty()).origins.len() == 0,
        policy_for(Seq::empty()).max_age_secs is None,
{
}

/// Only listed origins may call.
pub proof fn law_only_listed_origins(s: Seq<Seq<char>>, o: Seq<char>)
    requires
        policy_for(s).origins.contains(o),
    ensures
        s.contains(o),
    decreases s.len(),
{
    if s.len() > 0 {
        let rest = valid_origins(s.drop_last());
        if rest.contains(o) {
            law_only_listed_origins(s.drop_last(), o);
            let j = choose|j: int| 0 <= j < s.drop_last().len() && s.drop_last()[j] == o;
            assert(s[j] == o);
        } else {
            let j = choose|j: int| 0 <= j < valid_origins(s).len() && valid_origins(s)[j] == o;
            if j < rest.len() {
                assert(rest[j] == o);
            }
            assert(s[s.len() - 1] == o);
        }
    }
}

/// Every origin of the list that a header can hold may call, in the order of the list.
pub proof fn law_listed_origins_may_call(a: Seq<Seq<char>>, b: Seq<Seq<char>>, o: Seq<char>)
    ensures
        valid_origins(a + b) == valid_origins(a) + valid_origins(b),
        http::header_bytes(text::utf8(o)) ==> policy_for(seq![o]).origins == seq![o],
        !http::header_bytes(text::utf8(o)) ==> policy_for(seq![o]).origins.len() == 0,
        policy_for(a).origins == valid_origins(a),
        policy_for(a).origins.len() > 0 ==> policy_for(a).max_age_secs == Some(3600u64),
        policy_for(a).methods == seq!["GET"@, "POST"@, "OPTIONS"@],
        policy_for(a).headers == seq!["content-type"@, "authorization"@],
    decreases b.len(),
{
    reveal_with_fuel(valid_origins, 2);
    assert(seq![o].drop_last() =~= Seq::<Seq<char>>::empty());
    assert(valid_origins(seq![o]) =~= if http::header_bytes(text::utf8(o)) {
        seq![o]
    } else {
        Seq::empty()
    });
    if b.len() == 0 {
        assert(a + b =~= a);
        assert(valid_origins(a) + valid_origins(b) =~= valid_origins(a));
    } else {
        law_listed_origins_may_call(a, b.drop_last(), o);
        assert((a + b).drop_last() =~= a + b.drop_last());
        assert((a + b).last() == b.last());
        assert(valid_origins(a + b) =~= valid_origins(a) + valid_origins(b));
    }
}

/// Every response says what scripts may do, that no referrer is told, and that types are
/// not guessed.
pub proof fn law_every_response_is_guarded()
    ensures
        every_response().len() == 3,
        every_response()[0].name == "content-security-policy"@,
        every_response()[0].value == CONTENT_SECURITY_POLICY@,
        every_response()[1].name == "referrer-policy"@,
        every_response()[1].value == "no-referrer"@,
        every_response()[2].name == "x-content-type-options"@,
        every_response()[2].value == "nosniff"@,
{
}

} // verus!
