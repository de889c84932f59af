//! The security pipeline every REST view request goes through before its
//! handler runs: session validation for protected views (failing closed
//! without a session manager), the guard's redirect decisions, and CSRF
//! enforcement for requests that carry a session.

use vstd::prelude::*;
use crate::text::{chars_of, starts_with};

verus! {

/// What the guard wants done with a request.
pub enum GuardAction {
    /// Serve the request.
    Allow,
    /// Redirect to a URL.
    Redirect(String),
    /// Redirect to the guard view.
    RedirectToGuard(String),
    /// Refuse the request as unauthenticated.
    Reject,
}

/// The facts the pipeline decides on for one request.
pub struct SecurityInputs {
    /// The view is public (needs no session).
    pub is_public: bool,
    /// A session manager is configured.
    pub has_session_manager: bool,
    /// The request carries a session id (cookie or bearer token).
    pub has_session_id: bool,
    /// The session manager found that session valid.
    pub session_valid: bool,
    /// The view is the guard view.
    pub is_guard_view: bool,
    /// A CSRF manager is configured.
    pub has_csrf_manager: bool,
    /// The request is exempt from CSRF checks (safe method, non-session
    /// auth, or a bearer token).
    pub csrf_exempt: bool,
    /// The request's CSRF token is valid for its session.
    pub csrf_token_valid: bool,
}

/// How the pipeline ends.
pub enum SecurityVerdict {
    /// Run the handler; with the session when it validated, and asking the
    /// client to drop its session cookie when that session was invalid.
    Proceed { session_valid: bool, clear_cookie: bool },
    /// 500: a protected view without a session manager.
    NoSessionManager,
    /// Temporary redirect, clearing the session cookie if asked.
    Redirect { url: String, clear_cookie: bool },
    /// 401: authentication required.
    Unauthorized,
    /// 403: CSRF validation failed.
    CsrfRejected,
}

/// The view of a guard action: `None` for allow and reject, the redirect
/// target otherwise.
pub open spec fn redirect_target(a: GuardAction) -> Option<Seq<char>> {
    match a {
        GuardAction::Redirect(u) => Some(u@),
        GuardAction::RedirectToGuard(p) => Some(p@),
        _ => None,
    }
}

/// Whether a request with a validated session must pass the CSRF check.
pub open spec fn csrf_required(i: SecurityInputs, session_valid: bool) -> bool {
    i.has_csrf_manager && i.has_session_id && session_valid && !i.csrf_exempt
}

/// The verdict of the pipeline. `unauthenticated` is the guard's action
/// for a request without a valid session; `authenticated` its action for
/// the guard view reached with a valid session.
pub open spec fn verdict_of(i: SecurityInputs, unauthenticated: GuardAction, authenticated: GuardAction) -> (
    nat,
    Option<Seq<char>>,
    bool,
    bool,
) {
    // (kind, redirect url, session valid, clear cookie) where kind is
    // 0 proceed, 1 no session manager, 2 redirect, 3 unauthorized, 4 csrf
    let session = !i.is_public && i.has_session_manager && i.has_session_id && i.session_valid;
    let clear = !i.is_public && i.has_session_manager && i.has_session_id && !i.session_valid;
    if !i.is_public && !i.has_session_manager {
        (1, None, false, false)
    } else if !i.is_public && !session && redirect_target(unauthenticated) is Some {
        (2, redirect_target(unauthenticated), false, clear)
    } else if !i.is_public && !session && unauthenticated is Reject {
        (3, None, false, false)
    } else if i.is_guard_view && session && authenticated is Redirect {
        (2, redirect_target(authenticated), false, false)
    } else if csrf_required(i, session) && !i.csrf_token_valid {
        (4, None, false, false)
    } else {
        (0, None, session, clear)
    }
}

/// The view of a verdict in the shape of `verdict_of`.
pub open spec fn verdict_view(v: SecurityVerdict) -> (nat, Option<Seq<char>>, bool, bool) {
    match v {
        SecurityVerdict::Proceed { session_valid, clear_cookie } => (
            0,
            None,
            session_valid,
            clear_cookie,
        ),
        SecurityVerdict::NoSessionManager => (1, None, false, false),
        SecurityVerdict::Redirect { url, clear_cookie } => (2, Some(url@), false, clear_cookie),
        SecurityVerdict::Unauthorized => (3, None, false, false),
        SecurityVerdict::CsrfRejected => (4, None, false, false),
    }
}

/// Runs the security pipeline's decisions for one request.
pub fn security_verdict(i: &SecurityInputs, unauthenticated: GuardAction, authenticated: GuardAction) -> (r:
    SecurityVerdict)
    ensures
        verdict_view(r) == verdict_of(*i, unauthenticated, authenticated),
{
    let mut session = false;
    let mut clear = false;
    if !i.is_public {
        if !i.has_session_manager {
            return SecurityVerdict::NoSessionManager;
        }
        if i.has_session_id {
            if i.session_valid {
                session = true;
            } else {
                clear = true;
            }
        }
        if !session {
            match unauthenticated {
                GuardAction::Redirect(url) => {
                    return SecurityVerdict::Redirect { url, clear_cookie: clear };
                },
                GuardAction::RedirectToGuard(path) => {
                    return SecurityVerdict::Redirect { url: path, clear_cookie: clear };
                },
                GuardAction::Reject => {
                    return SecurityVerdict::Unauthorized;
                },
                GuardAction::Allow => {},
            }
        }
    }
    if i.is_guard_view && session {
        match authenticated {
            GuardAction::Redirect(url) => {
                return SecurityVerdict::Redirect { url, clear_cookie: false };
            },
            _ => {},
        }
    }
    if i.has_csrf_manager && i.has_session_id && session && !i.csrf_exempt {
        if !i.csrf_token_valid {
            return SecurityVerdict::CsrfRejected;
        }
    }
    SecurityVerdict::Proceed { session_valid: session, clear_cookie: clear }
}

/// A protected view runs its handler only with a valid session or when
/// the guard allows the request without one, and a request with a session
/// that needs a CSRF token runs only with a valid one.
pub proof fn law_protected_views_need_a_session(
    i: SecurityInputs,
    unauthenticated: GuardAction,
    authenticated: GuardAction,
)
    ensures
        verdict_of(i, unauthenticated, authenticated).0 == 0 && !i.is_public ==> (i.has_session_manager
            && i.has_session_id && i.session_valid) || unauthenticated is Allow,
        verdict_of(i, unauthenticated, authenticated).0 == 0 && csrf_required(
            i,
            verdict_of(i, unauthenticated, authenticated).2,
        ) ==> i.csrf_token_valid,
        verdict_of(i, unauthenticated, authenticated).0 == 0 && verdict_of(
            i,
            unauthenticated,
            authenticated,
        ).2 ==> i.session_valid,
{
}

/// Whether an `Authorization` header carries a bearer token.
pub fn has_bearer_token(authorization: Option<&str>) -> (r: bool)
    ensures
        r == match authorization {
            Some(a) => crate::text::has_prefix(a@, "Bearer "@),
            None => false,
        },
{
    match authorization {
        Some(a) => {
            let v = chars_of(a);
            let p = chars_of("Bearer ");
            starts_with(v.as_slice(), p.as_slice())
        },
        None => false,
    }
}

/// The CSRF token of a request: the configured header, else
/// `x-csrf-token`, else empty.
pub fn csrf_token<'a>(configured: Option<&'a str>, fallback: Option<&'a str>) -> (r: &'a str)
    ensures
        r@ == match configured {
            Some(t) => t@,
            None => match fallback {
                Some(f) => f@,
                None => Seq::<char>::empty(),
            },
        },
{
    match configured {
        Some(t) => t,
        None => match fallback {
            Some(f) => f,
            None => {
                proof {
                    reveal_strlit("");
                }
                ""
            },
        },
    }
}

} // verus!
