//! How the server is put together.

use vstd::prelude::*;

use crate::config::{Config, LlmConfig};
use crate::middleware;
use crate::middleware::{CorsPolicy, HeaderPair, HeaderView, PolicyView};
use crate::net::Ip;
use crate::rate_limit;
use crate::rate_limit::{RateLimitPolicy, RateLimiter};
use crate::text;

verus! {

/// The limiters of the speech and the chat side.
pub fn build_rate_limiters(cfg: &Config) -> (r: (RateLimiter, RateLimiter))
    ensures
        r.0.wf(),
        r.1.wf(),
        r.0@ == (rate_limit::LimiterView {
            tpm: cfg.rate_limit.stt_per_min,
            buckets: rate_limit::no_buckets(),
            checks: 0,
        }),
        r.1@ == (rate_limit::LimiterView {
            tpm: cfg.rate_limit.llm_per_min,
            buckets: rate_limit::no_buckets(),
            checks: 0,
        }),
        r.0@.tpm == cfg.rate_limit.stt_per_min && r.1@.tpm == cfg.rate_limit.llm_per_min,
{
    (
        RateLimiter::new(RateLimitPolicy::stt(cfg.rate_limit.stt_per_min)),
        RateLimiter::new(RateLimitPolicy::llm(cfg.rate_limit.llm_per_min)),
    )
}

/// A refusal because of the rate: status 429, a text, and how many seconds to
/// wait.
#[derive(Debug, Clone, PartialEq, Eq)]
pub struct TooMany {
    pub body: &'static str,
    pub retry_after: String,
}

/// Which side a request is for.
#[derive(Debug, Clone, Copy, PartialEq, Eq, Structural)]
pub enum Side {
    Speech,
    Chat,
}

/// The text of a refusal.
pub open spec fn too_many_text(side: Side) -> Seq<char> {
    match side {
        Side::Speech => "rate limit exceeded for STT pipeline"@,
        Side::Chat => "rate limit exceeded"@,
    }
}

/// Whether a request passes: it takes a token of its address; one whose address
/// is not known passes.
pub fn pass(limiter: &mut RateLimiter, peer: Option<Ip>, now_ns: u64, side: Side) -> (r: Result<
    (),
    TooMany,
>)
    requires
        old(limiter).wf(),
    ensures
        final(limiter).wf(),
        peer is None ==> r is Ok,
        peer is Some ==> (r is Ok <==> rate_limit::answer(old(limiter)@, peer->0, now_ns as int)
            is Ok),
        r is Err && side is Chat ==> r->Err_0.body@ == "rate limit exceeded"@,
        r is Err && side is Speech ==> r->Err_0.body@ == "rate limit exceeded for STT pipeline"@,
        match peer {
            None => r is Ok && final(limiter)@ == old(limiter)@,
            Some(ip) => {
                &&& final(limiter)@ == rate_limit::checked(old(limiter)@, ip, now_ns as int)
                &&& match rate_limit::answer(old(limiter)@, ip, now_ns as int) {
                    Ok(_) => r is Ok,
                    Err(e) => r is Err && r->Err_0.body@ == too_many_text(side)
                        && r->Err_0.retry_after@ == text::digits(
                        rate_limit::wait_secs(e.wait_ms()) as nat,
                    ),
                }
            },
        },
{
    match limiter.check_opt(peer, now_ns) {
        Ok(_) => Ok(()),
        Err(e) => {
            let secs: u64 = e.retry_after_secs();
            let body = match side {
                Side::Speech => "rate limit exceeded for STT pipeline",
                Side::Chat => "rate limit exceeded",
            };
            Err(TooMany { body, retry_after: text::number(secs) })
        },
    }
}

/// What a route leads to.
#[derive(Debug, Clone, Copy, PartialEq, Eq, Structural)]
pub enum Endpoint {
    /// The page.
    Index,
    /// Whether the server is ready.
    Health,
    /// The versions.
    Version,
    /// The socket for speech.
    Socket,
    /// A file of the page.
    Asset,
    /// The list of agents.
    Agents,
    /// A direct call of an agent.
    Invoke,
    /// A conversation with the model.
    Chat,
    /// The list of models.
    Models,
}

impl Endpoint {
    /// The path, with a colon before a part that is free and a star before a free
    /// rest.
    pub open spec fn path_text(self) -> Seq<char> {
        match self {
            Endpoint::Index => "/"@,
            Endpoint::Health => "/healthz"@,
            Endpoint::Version => "/api/version"@,
            Endpoint::Socket => "/ws"@,
            Endpoint::Asset => "/static/*path"@,
            Endpoint::Agents => "/v1/agents"@,
            Endpoint::Invoke => "/v1/agents/:name/invoke"@,
            Endpoint::Chat => "/v1/chat/completions"@,
            Endpoint::Models => "/v1/models"@,
        }
    }

    /// The path.
    pub fn path(self) -> (r: &'static str)
        ensures
            r@ == self.path_text(),
    {
        match self {
            Endpoint::Index => "/",
            Endpoint::Health => "/healthz",
            Endpoint::Version => "/api/version",
            Endpoint::Socket => "/ws",
            Endpoint::Asset => "/static/*path",
            Endpoint::Agents => "/v1/agents",
            Endpoint::Invoke => "/v1/agents/:name/invoke",
            Endpoint::Chat => "/v1/chat/completions",
            Endpoint::Models => "/v1/models",
        }
    }
}

/// A group of routes, and who may call it from another origin.
#[derive(Debug, Clone, PartialEq, Eq)]
pub struct RouteGroup {
    pub endpoints: Vec<Endpoint>,
    pub policy: CorsPolicy,
    /// Whether each request takes a token of the proxy's limiter.
    pub limited: bool,
}

/// Which routes there are. Those of the speech side have neither a policy for
/// other origins nor a limit on requests.
#[derive(Debug, Clone, PartialEq, Eq)]
pub struct RoutePlan {
    /// What every response of every route carries.
    pub headers: Vec<HeaderPair>,
    pub speech: Vec<Endpoint>,
    pub agents: Option<RouteGroup>,
    pub chat: Option<RouteGroup>,
}

/// A group of routes, as values.
pub struct GroupView {
    pub endpoints: Seq<Endpoint>,
    pub policy: PolicyView,
    pub limited: bool,
}

/// Which routes there are, as values.
pub struct PlanView {
    pub headers: Seq<HeaderView>,
    pub speech: Seq<Endpoint>,
    pub agents: Option<GroupView>,
    pub chat: Option<GroupView>,
}

impl View for RouteGroup {
    type V = GroupView;

    open spec fn view(&self) -> GroupView {
        GroupView { endpoints: self.endpoints@, policy: self.policy@, limited: self.limited }
    }
}

impl View for RoutePlan {
    type V = PlanView;

    open spec fn view(&self) -> PlanView {
        PlanView {
            headers: middleware::header_views(self.headers@),
            speech: self.speech@,
            agents: match self.agents {
                Some(g) => Some(g@),
                None => None,
            },
            chat: match self.chat {
                Some(g) => Some(g@),
                None => None,
            },
        }
    }
}

/// The origins that may call the routes of a proxy; none without a proxy.
pub open spec fn proxy_origins(llm: Option<&LlmConfig>) -> Seq<Seq<char>> {
    match llm {
        Some(c) => text::texts(c.cors_allow_origins@),
        None => Seq::empty(),
    }
}

/// Which routes there are: those of the speech side always, those of the agents
/// when there are agents, those of the chat proxy when there is one. The agents'
/// routes take the proxy's list of origins, and without a proxy no other origin
/// may call them. Agents and proxy share a limiter. Every response, of whichever
/// route, carries the same headers.
pub open spec fn plan_for(llm: Option<&LlmConfig>, has_agents: bool) -> PlanView {
    let policy = middleware::policy_for(proxy_origins(llm));
    PlanView {
        headers: middleware::every_response(),
        speech: seq![
            Endpoint::Index,
            Endpoint::Health,
            Endpoint::Version,
            Endpoint::Socket,
            Endpoint::Asset,
        ],
        agents: if has_agents {
            Some(
                GroupView {
                    endpoints: seq![Endpoint::Agents, Endpoint::Invoke],
                    policy,
                    limited: true,
                },
            )
        } else {
            None
        },
        chat: if llm is Some {
            Some(
                GroupView {
                    endpoints: seq![Endpoint::Chat, Endpoint::Models],
                    policy,
                    limited: true,
                },
            )
        } else {
            None
        },
    }
}

/// Which routes there are.
pub fn build_router(llm: Option<&LlmConfig>, has_agents: bool) -> (r: RoutePlan)
    ensures
        r@ == plan_for(llm, has_agents),
{
    let speech: Vec<Endpoint> = vec![
        Endpoint::Index,
        Endpoint::Health,
        Endpoint::Version,
        Endpoint::Socket,
        Endpoint::Asset,
    ];
    let agents = if has_agents {
        let policy = match llm {
            Some(c) => middleware::cors_layer(&c.cors_allow_origins),
            None => {
                let none: Vec<String> = Vec::new();
                assert(text::texts(none@) == Seq::<Seq<char>>::empty());
                middleware::cors_layer(&none)
            },
        };
        let endpoints: Vec<Endpoint> = vec![Endpoint::Agents, Endpoint::Invoke];
        assert(endpoints@ == seq![Endpoint::Agents, Endpoint::Invoke]);
        Some(RouteGroup { endpoints, policy, limited: true })
    } else {
        None
    };
    let chat = match llm {
        Some(c) => {
            let policy = middleware::cors_layer(&c.cors_allow_origins);
            let endpoints: Vec<Endpoint> = vec![Endpoint::Chat, Endpoint::Models];
            assert(endpoints@ == seq![Endpoint::Chat, Endpoint::Models]);
            Some(RouteGroup { endpoints, policy, limited: true })
        },
        None => None,
    };
    let r = RoutePlan { headers: middleware::response_headers(), speech, agents, chat };
    assert(r@.speech == plan_for(llm, has_agents).speech);
    r
}

/// Whether a path begins as those of the proxy and the agents do.
pub open spec fn under_v1(e: Endpoint) -> bool {
    text::starts_with(e.path_text(), "/v1/"@)
}

/// What is turned off leaves no trace: without a proxy and without agents no
/// path under `/v1/` leads anywhere.
pub proof fn law_off_leaves_no_trace(i: int)
    requires
        0 <= i < plan_for(None, false).speech.len(),
    ensures
        plan_for(None, false).agents is None,
        plan_for(None, false).chat is None,
        !under_v1(plan_for(None, false).speech[i]),
{
    let e = plan_for(None, false).speech[i];
    reveal_strlit("/");
    reveal_strlit("/healthz");
    reveal_strlit("/api/version");
    reveal_strlit("/ws");
    reveal_strlit("/static/*path");
    reveal_strlit("/v1/");
    if under_v1(e) {
        assert(e.path_text().subrange(0, 4)[1] == 'v');
        assert(e.path_text()[1] == 'v');
    }
}

/// The agents' routes are there whether or not there is a proxy; without one no
/// other origin may call them.
pub proof fn law_agents_do_not_need_the_proxy()
    ensures
        plan_for(None, true).agents is Some,
        plan_for(None, true).agents->0.policy.origins.len() == 0,
        plan_for(None, true).chat is None,
{
}

/// The limiter guards the paths under `/v1/`, all of them and no others.
pub proof fn law_limit_guards_v1(llm: Option<&LlmConfig>, has_agents: bool, e: Endpoint)
    ensures
        plan_for(llm, has_agents).speech.contains(e) ==> !under_v1(e),
        plan_for(llm, has_agents).agents matches Some(g) ==> g.limited && (g.endpoints.contains(e)
            ==> under_v1(e)),
        plan_for(llm, has_agents).chat matches Some(g) ==> g.limited && (g.endpoints.contains(e)
            ==> under_v1(e)),
{
    let plan = plan_for(llm, has_agents);
    reveal_strlit("/v1/");
    reveal_strlit("/v1/agents");
    reveal_strlit("/v1/agents/:name/invoke");
    reveal_strlit("/v1/chat/completions");
    reveal_strlit("/v1/models");
    if plan.speech.contains(e) {
        let i = plan.speech.index_of(e);
        law_off_leaves_no_trace(i);
    }
    let v1 = "/v1/"@;
    assert("/v1/agents"@.subrange(0, 4) =~= v1);
    assert("/v1/agents/:name/invoke"@.subrange(0, 4) =~= v1);
    assert("/v1/chat/completions"@.subrange(0, 4) =~= v1);
    assert("/v1/models"@.subrange(0, 4) =~= v1);
}

/// The routes: the page and speech always; agents and chat each exactly when they are
/// there, for the origins of the proxy, and each request of theirs takes a token.
pub proof fn law_routes(llm: Option<&LlmConfig>, has_agents: bool)
    ensures
        ({
            let p = plan_for(llm, has_agents);
            &&& p.headers == middleware::every_response()
            &&& p.speech.len() == 5
            &&& p.speech.map_values(|e: Endpoint| e.path_text()) == seq![
                "/"@,
                "/healthz"@,
                "/api/version"@,
                "/ws"@,
                "/static/*path"@,
            ]
            &&& p.agents is Some <==> has_agents
            &&& p.chat is Some <==> llm is Some
            &&& has_agents ==> {
                &&& p.agents->0.endpoints.map_values(|e: Endpoint| e.path_text()) == seq![
                    "/v1/agents"@,
                    "/v1/agents/:name/invoke"@,
                ]
                &&& p.agents->0.limited
                &&& llm is Some ==> p.agents->0.policy == middleware::policy_for(
                    text::texts(llm->0.cors_allow_origins@),
                )
            }
            &&& llm is Some ==> {
                &&& p.chat->0.endpoints.map_values(|e: Endpoint| e.path_text()) == seq![
                    "/v1/chat/completions"@,
                    "/v1/models"@,
                ]
                &&& p.chat->0.limited
                &&& p.chat->0.policy == middleware::policy_for(
                    text::texts(llm->0.cors_allow_origins@),
                )
            }
        }),
{
    let p = plan_for(llm, has_agents);
    assert(p.speech.map_values(|e: Endpoint| e.path_text()) =~= seq![
        "/"@,
        "/healthz"@,
        "/api/version"@,
        "/ws"@,
        "/static/*path"@,
    ]);
    if has_agents {
        assert(p.agents->0.endpoints.map_values(|e: Endpoint| e.path_text()) =~= seq![
            "/v1/agents"@,
            "/v1/agents/:name/invoke"@,
        ]);
    }
    if llm is Some {
        assert(p.chat->0.endpoints.map_values(|e: Endpoint| e.path_text()) =~= seq![
            "/v1/chat/completions"@,
            "/v1/models"@,
        ]);
    }
}

/// Who has no token is told so in the words of the side that was called.
pub proof fn law_refused_caller_is_told()
    ensures
        too_many_text(Side::Speech) == "rate limit exceeded for STT pipeline"@,
        too_many_text(Side::Chat) == "rate limit exceeded"@,
{
}

} // verus!
