//! Request dispatch: the fixed route table, path matching, and the
//! tier-gated, rate-limited forwarding decision. Classification runs
//! exactly once per request and at most one limiter is charged; a
//! whitelisted request bypasses every limiter.

use vstd::prelude::*;

verus! {

use crate::access::{
    classify,
    spec_classify,
    spec_extract_key,
    AccessTier,
    HeaderField,
    TokenVerdict,
    XLoadAuthHeaderExtractor,
};
use crate::limiter::{spec_limiter_step, RateLimiter};
use crate::text::{spec_starts_with, str_eq, str_starts_with};
use vstd::string::StrSliceExecFns;

/// Default burst size of the public tier, in tokens.
pub const PUBLIC_BURST: u32 = 6;

/// Default burst size of the authenticated tier, in tokens.
pub const AUTHENTICATED_BURST: u32 = 60;

/// Default burst size of the internal tier: effectively unbounded.
pub const INTERNAL_BURST: u32 = 999999;

/// The HTTP methods the gateway routes.
#[derive(Clone, Copy, Debug, PartialEq, Eq, Structural)]
pub enum Method {
    Get,
    Post,
}

/// The retrieval endpoints of the tier-gated route table.
#[derive(Clone, Copy, Debug, PartialEq, Eq, Structural)]
pub enum Endpoint {
    /// Streams the object's bytes; matched under `/download/` and its
    /// alias `/resolve/`.
    DownloadObject,
    /// Returns the record found by its content-addressed handle.
    BundleByOpHash,
    /// Returns the record found by its settlement transaction id.
    BundleByLoadTxid,
}

/// Where a request is routed.
#[derive(Debug)]
pub enum RouteTarget {
    /// `GET /`: the liveness status, ungated.
    ServerStatus,
    /// `GET /stats`: aggregate statistics, ungated.
    BundleStats,
    /// `POST /upload`: the upload handler.
    UploadBinary,
    /// A tier-gated retrieval endpoint with its captured path segment.
    Retrieval(Endpoint, String),
    /// No route matches.
    NotFound,
}

/// Ghost mirror of `RouteTarget`, with the captured segment as a character
/// sequence.
pub ghost enum SpecRoute {
    ServerStatus,
    BundleStats,
    UploadBinary,
    Retrieval(Endpoint, Seq<char>),
    NotFound,
}

/// The path segment that follows `prefix` in `path`, provided it is
/// nonempty and crosses no further `/`.
pub open spec fn spec_segment_after(path: Seq<char>, prefix: Seq<char>) -> Option<Seq<char>> {
    if spec_starts_with(path, prefix) && path.len() > prefix.len() && (forall|k: int|
        prefix.len() <= k < path.len() ==> path[k] != '/') {
        Option::Some(path.skip(prefix.len() as int))
    } else {
        Option::None
    }
}

/// The route of a request, decided by method and path.
pub open spec fn spec_route(method: Method, path: Seq<char>) -> SpecRoute {
    match method {
        Method::Get => if path == "/"@ {
            SpecRoute::ServerStatus
        } else if path == "/stats"@ {
            SpecRoute::BundleStats
        } else if spec_segment_after(path, "/download/"@) is Some {
            SpecRoute::Retrieval(
                Endpoint::DownloadObject,
                spec_segment_after(path, "/download/"@)->0,
            )
        } else if spec_segment_after(path, "/resolve/"@) is Some {
            SpecRoute::Retrieval(
                Endpoint::DownloadObject,
                spec_segment_after(path, "/resolve/"@)->0,
            )
        } else if spec_segment_after(path, "/bundle/optimistic/"@) is Some {
            SpecRoute::Retrieval(
                Endpoint::BundleByOpHash,
                spec_segment_after(path, "/bundle/optimistic/"@)->0,
            )
        } else if spec_segment_after(path, "/bundle/load/"@) is Some {
            SpecRoute::Retrieval(
                Endpoint::BundleByLoadTxid,
                spec_segment_after(path, "/bundle/load/"@)->0,
            )
        } else {
            SpecRoute::NotFound
        },
        Method::Post => if path == "/upload"@ {
            SpecRoute::UploadBinary
        } else {
            SpecRoute::NotFound
        },
    }
}

/// `target` is the executable form of the ghost route `s`.
pub open spec fn route_matches(target: RouteTarget, s: SpecRoute) -> bool {
    match (target, s) {
        (RouteTarget::ServerStatus, SpecRoute::ServerStatus) => true,
        (RouteTarget::BundleStats, SpecRoute::BundleStats) => true,
        (RouteTarget::UploadBinary, SpecRoute::UploadBinary) => true,
        (RouteTarget::Retrieval(ep, h), SpecRoute::Retrieval(ep2, h2)) => ep == ep2 && h@ == h2,
        (RouteTarget::NotFound, SpecRoute::NotFound) => true,
        _ => false,
    }
}

/// The path segment after `prefix`, when `path` is `prefix` followed by one
/// nonempty slash-free segment.
fn segment_after(path: &str, prefix: &str) -> (r: Option<String>)
    ensures
        r.deep_view() == spec_segment_after(path@, prefix@),
{
    if !str_starts_with(path, prefix) {
        return Option::None;
    }
    let n: usize = path.unicode_len();
    let p: usize = prefix.unicode_len();
    if n <= p {
        return Option::None;
    }
    let mut k: usize = p;
    while k < n
        invariant
            p <= k <= n,
            n == path@.len(),
            p == prefix@.len(),
            forall|m: int| p <= m < k ==> path@[m] != '/',
        decreases n - k,
    {
        if path.get_char(k) == '/' {
            return Option::None;
        }
        k = k + 1;
    }
    let seg = path.substring_char(p, n);
    proof {
        assert(seg@ =~= path@.skip(p as int));
    }
    Option::Some(seg.to_owned())
}

/// Routes one request by method and path, mirroring the fixed route table:
/// the three ungated endpoints, the four tier-gated retrieval routes, and
/// not-found for the rest.
pub fn route_request(method: Method, path: &str) -> (target: RouteTarget)
    ensures
        route_matches(target, spec_route(method, path@)),
{
    match method {
        Method::Get => {
            if str_eq(path, "/") {
                RouteTarget::ServerStatus
            } else if str_eq(path, "/stats") {
                RouteTarget::BundleStats
            } else if let Option::Some(h) = segment_after(path, "/download/") {
                RouteTarget::Retrieval(Endpoint::DownloadObject, h)
            } else if let Option::Some(h) = segment_after(path, "/resolve/") {
                RouteTarget::Retrieval(Endpoint::DownloadObject, h)
            } else if let Option::Some(h) = segment_after(path, "/bundle/optimistic/") {
                RouteTarget::Retrieval(Endpoint::BundleByOpHash, h)
            } else if let Option::Some(h) = segment_after(path, "/bundle/load/") {
                RouteTarget::Retrieval(Endpoint::BundleByLoadTxid, h)
            } else {
                RouteTarget::NotFound
            }
        },
        Method::Post => {
            if str_eq(path, "/upload") {
                RouteTarget::UploadBinary
            } else {
                RouteTarget::NotFound
            }
        },
    }
}

/// How the dispatcher answered one tier-gated request.
#[derive(Debug, PartialEq, Eq, Structural)]
pub enum RequestDecision {
    /// Forward the request, unmodified, to the terminal handler of this
    /// tier's route table.
    Forward(AccessTier),
    /// The tier's limiter rejected the request: answer "too many
    /// requests" without reaching the handler.
    TooManyRequests(AccessTier),
    /// No identity key could be extracted for rate limiting.
    KeyUnavailable,
}

/// The dispatcher: the classification inputs and one independent limiter
/// per gated tier.
pub struct Dispatcher {
    pub whitelist: Vec<String>,
    pub internal_key: String,
    pub public_limiter: RateLimiter,
    pub authenticated_limiter: RateLimiter,
    pub internal_limiter: RateLimiter,
}

impl Dispatcher {
    /// All three limiters are well-formed.
    pub open spec fn wf(self) -> bool {
        &&& self.public_limiter.wf()
        &&& self.authenticated_limiter.wf()
        &&& self.internal_limiter.wf()
    }

    /// A dispatcher over the given whitelist and secret, with one fresh
    /// limiter per gated tier.
    pub fn new(
        whitelist: Vec<String>,
        internal_key: String,
        public_burst: u32,
        authenticated_burst: u32,
        internal_burst: u32,
    ) -> (d: Dispatcher)
        requires
            public_burst >= 1,
            authenticated_burst >= 1,
            internal_burst >= 1,
        ensures
            d.wf(),
            d.whitelist == whitelist,
            d.internal_key == internal_key,
            d.public_limiter.capacity_millitokens == public_burst as int * 1000,
            d.authenticated_limiter.capacity_millitokens == authenticated_burst as int * 1000,
            d.internal_limiter.capacity_millitokens == internal_burst as int * 1000,
            d.public_limiter.buckets@.len() == 0,
            d.authenticated_limiter.buckets@.len() == 0,
            d.internal_limiter.buckets@.len() == 0,
    {
        Dispatcher {
            whitelist,
            internal_key,
            public_limiter: RateLimiter::new(public_burst),
            authenticated_limiter: RateLimiter::new(authenticated_burst),
            internal_limiter: RateLimiter::new(internal_burst),
        }
    }

    /// Charges the limiter of `tier` for `key`, or charges nothing for a
    /// whitelisted request.
    pub fn charge(&mut self, tier: AccessTier, key: &String, now_ms: u64) -> (admitted: bool)
        requires
            old(self).wf(),
        ensures
            final(self).wf(),
            final(self).whitelist == old(self).whitelist,
            final(self).internal_key == old(self).internal_key,
            tier is Whitelisted ==> admitted && *final(self) == *old(self),
            tier is Public ==> spec_limiter_step(
                old(self).public_limiter,
                final(self).public_limiter,
                key@,
                now_ms,
                admitted,
            ) && final(self).authenticated_limiter == old(self).authenticated_limiter && final(self).internal_limiter == old(self).internal_limiter,
            tier is Authenticated ==> spec_limiter_step(
                old(self).authenticated_limiter,
                final(self).authenticated_limiter,
                key@,
                now_ms,
                admitted,
            ) && final(self).public_limiter == old(self).public_limiter && final(self).internal_limiter == old(self).internal_limiter,
            tier is Internal ==> spec_limiter_step(
                old(self).internal_limiter,
                final(self).internal_limiter,
                key@,
                now_ms,
                admitted,
            ) && final(self).public_limiter == old(self).public_limiter && final(self).authenticated_limiter == old(self).authenticated_limiter,
    {
        match tier {
            AccessTier::Whitelisted => true,
            AccessTier::Public => self.public_limiter.try_consume(key, now_ms),
            AccessTier::Authenticated => self.authenticated_limiter.try_consume(key, now_ms),
            AccessTier::Internal => self.internal_limiter.try_consume(key, now_ms),
        }
    }

    /// Admission control for one request: classifies it exactly once,
    /// picks the identity key, charges at most one limiter, and decides
    /// whether the request reaches the terminal handler.
    pub fn handle_request(
        &mut self,
        host_header: &String,
        auth_header: Option<&String>,
        verdict: TokenVerdict,
        peer_addr: Option<String>,
        header_raw: HeaderField,
        now_ms: u64,
    ) -> (decision: RequestDecision)
        requires
            old(self).wf(),
        ensures
            final(self).wf(),
            final(self).whitelist == old(self).whitelist,
            final(self).internal_key == old(self).internal_key,
            ({
                let tier = spec_classify(
                    host_header@,
                    auth_header.deep_view(),
                    verdict,
                    old(self).whitelist.deep_view(),
                    old(self).internal_key@,
                );
                &&& (tier is Whitelisted ==> decision == RequestDecision::Forward(
                    AccessTier::Whitelisted,
                ) && *final(self) == *old(self))
                &&& (!(tier is Whitelisted) ==> match spec_extract_key(
                    peer_addr.deep_view(),
                    header_raw,
                ) {
                    Result::Err(_) => decision == RequestDecision::KeyUnavailable && *final(self)
                        == *old(self),
                    Result::Ok(k) => {
                        let pre_limiter = match tier {
                            AccessTier::Public => old(self).public_limiter,
                            AccessTier::Authenticated => old(self).authenticated_limiter,
                            _ => old(self).internal_limiter,
                        };
                        let post_limiter = match tier {
                            AccessTier::Public => final(self).public_limiter,
                            AccessTier::Authenticated => final(self).authenticated_limiter,
                            _ => final(self).internal_limiter,
                        };
                        &&& (decision == RequestDecision::Forward(tier) || decision
                            == RequestDecision::TooManyRequests(tier))
                        &&& spec_limiter_step(
                            pre_limiter,
                            post_limiter,
                            k,
                            now_ms,
                            decision == RequestDecision::Forward(tier),
                        )
                    },
                })
            }),
    {
        let tier = classify(
            host_header,
            auth_header,
            verdict,
            &self.whitelist,
            &self.internal_key,
        );
        match tier {
            AccessTier::Whitelisted => RequestDecision::Forward(AccessTier::Whitelisted),
            _ => {
                let extractor = XLoadAuthHeaderExtractor;
                match extractor.extract(peer_addr, header_raw) {
                    Result::Err(_) => RequestDecision::KeyUnavailable,
                    Result::Ok(key) => {
                        let admitted = self.charge(tier, &key, now_ms);
                        if admitted {
                            RequestDecision::Forward(tier)
                        } else {
                            RequestDecision::TooManyRequests(tier)
                        }
                    },
                }
            },
        }
    }
}

} // verus!
