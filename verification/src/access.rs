//! Access classification: each inbound request is assigned exactly one
//! privilege tier from its `Host` header, its auth header and the token
//! verifier's verdict, in that priority order.

use vstd::prelude::*;

verus! {

use crate::text::{contains_string, csv_fields, spec_starts_with, str_starts_with};
use vstd::string::StringExecFns;

/// The name of the distinguished auth header.
pub const LOAD_HEADER_NAME: &'static str = "X-Load-Authorization";

/// The privilege tier of one inbound request.
#[derive(Clone, Copy, Debug, PartialEq, Eq, Structural)]
pub enum AccessTier {
    Whitelisted,
    Internal,
    Authenticated,
    Public,
}

/// What the token verifier reported about a bearer token. A verifier that
/// could not be reached, timed out or answered malformedly is `Unavailable`;
/// verification is fail-closed, so `Unavailable` carries no more privilege
/// than `Rejected`.
#[derive(Clone, Copy, Debug, PartialEq, Eq, Structural)]
pub enum TokenVerdict {
    Accepted,
    Rejected,
    Unavailable,
}

/// The hostname component that URL parsing extracts from `s`, if `s` is a
/// valid URL with a host.
pub uninterp spec fn host_of_url(s: Seq<char>) -> Option<Seq<char>>;

/// Relies on `url::Url::parse` and `url::Url::host_str`: parsing is a pure
/// function of the input text, and the host component of the parsed URL is
/// likewise determined by the input text alone.
#[verifier::external_body]
fn parse_host(url_text: &str) -> (r: Option<String>)
    ensures
        r is Some <==> host_of_url(url_text@) is Some,
        r matches Some(h) ==> host_of_url(url_text@) == Some(h@),
{
    match url::Url::parse(url_text) {
        Ok(u) => match u.host_str() {
            Some(h) => Some(h.to_owned()),
            None => None,
        },
        Err(_) => None,
    }
}

/// A `Host` header value with an explicit scheme prepended when it has none,
/// so that it parses as an absolute URL.
pub open spec fn spec_normalize_host(h: Seq<char>) -> Seq<char> {
    if spec_starts_with(h, "http://"@) || spec_starts_with(h, "https://"@) {
        h
    } else {
        "http://"@ + h
    }
}

/// Prepends `http://` to a `Host` header value that names no scheme.
pub fn normalize_host(h: &str) -> (r: String)
    ensures
        r@ == spec_normalize_host(h@),
{
    if str_starts_with(h, "http://") || str_starts_with(h, "https://") {
        h.to_owned()
    } else {
        String::from_str("http://").concat(h)
    }
}

/// The host names a whitelisted domain: it parses as a URL whose hostname
/// is one of the whitelist entries.
pub open spec fn spec_is_whitelisted(host: Option<Seq<char>>, wl: Seq<Seq<char>>) -> bool {
    match host {
        Option::Some(h) => match host_of_url(h) {
            Option::Some(p) => wl.contains(p),
            Option::None => false,
        },
        Option::None => false,
    }
}

/// Whether `host` parses as a URL whose hostname is in the whitelist.
pub fn is_whitelisted(host: Option<String>, whitelisted_domains: &Vec<String>) -> (r: bool)
    ensures
        r == spec_is_whitelisted(host.deep_view(), whitelisted_domains.deep_view()),
{
    match host {
        Option::Some(h) => match parse_host(h.as_str()) {
            Option::Some(p) => contains_string(whitelisted_domains, &p),
            Option::None => false,
        },
        Option::None => false,
    }
}

/// The whitelist parsed from its raw configuration value, a comma-separated
/// list of hostnames; an absent value yields an empty whitelist.
pub fn whitelisted_urls(raw: Option<String>) -> (wl: Vec<String>)
    ensures
        wl.deep_view() == match raw {
            Option::Some(s) => csv_fields(s@),
            Option::None => Seq::<Seq<char>>::empty(),
        },
{
    crate::config::env_var_to_vec(raw)
}

/// The tier of a request, decided in priority order: a whitelisted `Host`
/// hostname wins outright; otherwise an auth header equal to the internal
/// bypass secret; otherwise an auth header the verifier accepted; otherwise
/// the request is public.
pub open spec fn spec_classify(
    host: Seq<char>,
    auth: Option<Seq<char>>,
    verdict: TokenVerdict,
    wl: Seq<Seq<char>>,
    internal_key: Seq<char>,
) -> AccessTier {
    if spec_is_whitelisted(Option::Some(spec_normalize_host(host)), wl) {
        AccessTier::Whitelisted
    } else {
        match auth {
            Option::Some(a) => if a == internal_key {
                AccessTier::Internal
            } else if verdict is Accepted {
                AccessTier::Authenticated
            } else {
                AccessTier::Public
            },
            Option::None => AccessTier::Public,
        }
    }
}

/// Classifies one request. Classification runs exactly once per request;
/// `verdict` is what the token verifier said about the auth header value
/// (only consulted when the header is present and is not the secret).
pub fn classify(
    host_header: &String,
    auth_header: Option<&String>,
    verdict: TokenVerdict,
    whitelist: &Vec<String>,
    internal_key: &String,
) -> (tier: AccessTier)
    ensures
        tier == spec_classify(
            host_header@,
            auth_header.deep_view(),
            verdict,
            whitelist.deep_view(),
            internal_key@,
        ),
{
    let normalized = normalize_host(host_header.as_str());
    if is_whitelisted(Option::Some(normalized), whitelist) {
        AccessTier::Whitelisted
    } else {
        match auth_header {
            Option::Some(a) => {
                if *a == *internal_key {
                    AccessTier::Internal
                } else {
                    match verdict {
                        TokenVerdict::Accepted => AccessTier::Authenticated,
                        TokenVerdict::Rejected => AccessTier::Public,
                        TokenVerdict::Unavailable => AccessTier::Public,
                    }
                }
            },
            Option::None => AccessTier::Public,
        }
    }
}

/// A whitelisted hostname decides the tier alone: whatever the auth header
/// holds and whatever the verifier said, the request is `Whitelisted`.
pub proof fn lemma_whitelist_overrides(
    host: Seq<char>,
    auth: Option<Seq<char>>,
    verdict: TokenVerdict,
    wl: Seq<Seq<char>>,
    internal_key: Seq<char>,
)
    requires
        spec_is_whitelisted(Option::Some(spec_normalize_host(host)), wl),
    ensures
        spec_classify(host, auth, verdict, wl, internal_key) == AccessTier::Whitelisted,
{
}

/// An auth header equal to the internal bypass secret yields `Internal`
/// whenever the host is not whitelisted, whatever the verifier said.
pub proof fn lemma_internal_secret(
    host: Seq<char>,
    verdict: TokenVerdict,
    wl: Seq<Seq<char>>,
    internal_key: Seq<char>,
)
    requires
        !spec_is_whitelisted(Option::Some(spec_normalize_host(host)), wl),
    ensures
        spec_classify(host, Option::Some(internal_key), verdict, wl, internal_key)
            == AccessTier::Internal,
{
}

/// An accepted token yields `Authenticated` whenever the host is not
/// whitelisted and the header is not the secret.
pub proof fn lemma_accepted_token(
    host: Seq<char>,
    auth: Seq<char>,
    wl: Seq<Seq<char>>,
    internal_key: Seq<char>,
)
    requires
        !spec_is_whitelisted(Option::Some(spec_normalize_host(host)), wl),
        auth != internal_key,
    ensures
        spec_classify(host, Option::Some(auth), TokenVerdict::Accepted, wl, internal_key)
            == AccessTier::Authenticated,
{
}

/// A verifier failure is treated exactly like a rejected token: the request
/// is demoted, never failed.
pub proof fn lemma_verifier_failure_demotes(
    host: Seq<char>,
    auth: Option<Seq<char>>,
    wl: Seq<Seq<char>>,
    internal_key: Seq<char>,
)
    ensures
        spec_classify(host, auth, TokenVerdict::Unavailable, wl, internal_key)
            == spec_classify(host, auth, TokenVerdict::Rejected, wl, internal_key),
{
}

/// A request's auth header as received: absent, present but not readable as
/// text, or a text value.
#[derive(Debug)]
pub enum HeaderField {
    Missing,
    Unreadable,
    Value(String),
}

/// Error of the identity-key extraction: the request carried no usable
/// connection or header information.
#[derive(Clone, Copy, Debug, PartialEq, Eq, Structural)]
pub enum KeyError {
    UnableToExtractKey,
}

/// Extracts the rate-limit identity key from the auth header, falling back
/// to the peer address.
pub struct XLoadAuthHeaderExtractor;

/// The identity key owed to a request: the auth header text when present and
/// readable, else the peer address; no peer information or an unreadable
/// header is an error.
pub open spec fn spec_extract_key(peer: Option<Seq<char>>, header: HeaderField) -> Result<
    Seq<char>,
    KeyError,
> {
    match peer {
        Option::Some(ip) => match header {
            HeaderField::Value(v) => Result::Ok(v@),
            HeaderField::Unreadable => Result::Err(KeyError::UnableToExtractKey),
            HeaderField::Missing => Result::Ok(ip),
        },
        Option::None => Result::Err(KeyError::UnableToExtractKey),
    }
}

impl XLoadAuthHeaderExtractor {
    /// The rate-limit identity key for one request.
    pub fn extract(&self, peer_addr: Option<String>, header: HeaderField) -> (r: Result<
        String,
        KeyError,
    >)
        ensures
            match spec_extract_key(peer_addr.deep_view(), header) {
                Result::Ok(k) => r matches Ok(s) && s@ == k,
                Result::Err(e) => r matches Err(e2) && e2 == e,
            },
    {
        match peer_addr {
            Option::Some(ip) => match header {
                HeaderField::Value(v) => Result::Ok(v),
                HeaderField::Unreadable => Result::Err(KeyError::UnableToExtractKey),
                HeaderField::Missing => Result::Ok(ip),
            },
            Option::None => Result::Err(KeyError::UnableToExtractKey),
        }
    }
}

} // verus!
