//! Deciding whether a cross-origin request may proceed.
use vstd::prelude::*;
use crate::config::{allows, CorsConfig};
use crate::text::owned;

verus! {

broadcast use vstd::string::group_string_axioms;

/// What to do with a request under the CORS settings.
#[derive(Debug, Clone, PartialEq, Eq)]
pub enum CorsDecision {
    /// Refuse with 403.
    Forbidden,
    /// Answer a preflight request, echoing the origin if there is one.
    Preflight { allow_origin: Option<String> },
    /// Serve the request; when an origin is echoed, credentials are allowed too.
    Proceed { allow_origin: Option<String> },
}

/// Some allowed origin allows `origin`.
pub open spec fn origin_allowed(cors: CorsConfig, origin: Seq<char>) -> bool {
    exists|i: int|
        0 <= i < cors.allowed_origins@.len() && allows(#[trigger] cors.allowed_origins@[i]@, origin)
}

/// A request is authorized by its development key when it sends one, else by its origin
/// when it sends one; a request with neither is authorized.
pub open spec fn authorized(cors: CorsConfig, origin: Option<Seq<char>>, dev_key: Option<Seq<char>>) -> bool {
    match dev_key {
        Some(k) => cors.dev_key is Some && cors.dev_key->0@ == k,
        None => match origin {
            Some(o) => origin_allowed(cors, o),
            None => true,
        },
    }
}

pub open spec fn str_opt_view(o: Option<&str>) -> Option<Seq<char>> {
    match o {
        Some(s) => Some(s@),
        None => None,
    }
}

/// Whether the settings restrict anything: some origin is listed or a key is set.
pub fn cors_enabled(cors: &CorsConfig) -> (r: bool)
    ensures
        r == (cors.allowed_origins@.len() > 0 || cors.dev_key is Some),
{
    cors.allowed_origins.len() > 0 || cors.dev_key.is_some()
}

/// Whether a request with these headers is authorized.
pub fn is_cors_authorized(cors: &CorsConfig, origin: Option<&str>, dev_key: Option<&str>) -> (r: bool)
    ensures
        r == authorized(*cors, str_opt_view(origin), str_opt_view(dev_key)),
{
    match dev_key {
        Some(k) => cors.is_dev_key_valid(Some(k)),
        None => match origin {
            Some(o) => cors.is_origin_allowed(o),
            None => true,
        },
    }
}

pub open spec fn echo(o: Option<String>, origin: Option<Seq<char>>) -> bool {
    match origin {
        Some(s) => o is Some && o->0@ == s,
        None => o is None,
    }
}

/// The decision for a request: a preflight (`OPTIONS`) request is answered when
/// authorized; another request is refused when it sends an origin and is not authorized,
/// and served otherwise, echoing its origin when authorized.
pub fn cors_decision(
    cors: &CorsConfig,
    is_preflight: bool,
    origin: Option<&str>,
    dev_key: Option<&str>,
) -> (r: CorsDecision)
    ensures
        ({
            let ok = authorized(*cors, str_opt_view(origin), str_opt_view(dev_key));
            if is_preflight {
                if ok {
                    r matches CorsDecision::Preflight { allow_origin } && echo(allow_origin, str_opt_view(origin))
                } else {
                    r is Forbidden
                }
            } else if origin is Some && !ok {
                r is Forbidden
            } else if ok {
                r matches CorsDecision::Proceed { allow_origin } && echo(allow_origin, str_opt_view(origin))
            } else {
                r matches CorsDecision::Proceed { allow_origin } && allow_origin is None
            }
        }),
{
    let ok = is_cors_authorized(cors, origin, dev_key);
    let echoed = match origin {
        Some(o) => Some(owned(o)),
        None => None,
    };
    if is_preflight {
        if !ok {
            return CorsDecision::Forbidden;
        }
        return CorsDecision::Preflight { allow_origin: echoed };
    }
    if origin.is_some() && !ok {
        return CorsDecision::Forbidden;
    }
    if ok {
        CorsDecision::Proceed { allow_origin: echoed }
    } else {
        CorsDecision::Proceed { allow_origin: None }
    }
}

} // verus!
