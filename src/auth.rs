//! The account service's answers and what they mean for the caller.
use vstd::prelude::*;
use crate::errors::UiError;

verus! {

/// The answer to a session check.
#[derive(Debug)]
pub struct AuthVerifyResponse {
    pub valid: u8,
    pub entitlements: Option<String>,
    pub mptoken: Option<String>,
    pub hasgameserver: bool,
    pub reason: Option<String>,
}

fn reason_or(reason: Option<String>, fallback: &str) -> (r: String)
    ensures
        r@ == match reason {
            Some(s) => s@,
            None => fallback@,
        },
{
    match reason {
        Some(s) => s,
        None => String::from_str(fallback),
    }
}

/// The error a session check reports: none for a valid session, else
/// `invalid_session` with the service's reason (or `Invalid session`).
pub fn session_error(valid: u8, reason: Option<String>) -> (r: Option<UiError>)
    ensures
        valid != 0 ==> r is None,
        valid == 0 ==> r is Some && r->Some_0.name@ == "invalid_session"@ && r->Some_0.message@
            == match reason {
            Some(s) => s@,
            None => "Invalid session"@,
        },
{
    if valid != 0 {
        None
    } else {
        Some(
            UiError {
                name: String::from_str("invalid_session"),
                message: reason_or(reason, "Invalid session"),
            },
        )
    }
}

/// The error a login reports: none when it is valid; when a pre-login token
/// came back, the token as the tag with the reason (or `Pre-login required`);
/// else `invalid_login` with the reason (or `Invalid login`).
pub fn login_error(valid: u8, prelogintoken: Option<String>, reason: Option<String>) -> (r:
    Option<UiError>)
    ensures
        valid != 0 ==> r is None,
        valid == 0 && prelogintoken is Some ==> r is Some && r->Some_0.name@
            == prelogintoken->Some_0@ && r->Some_0.message@ == match reason {
            Some(s) => s@,
            None => "Pre-login required"@,
        },
        valid == 0 && prelogintoken is None ==> r is Some && r->Some_0.name@ == "invalid_login"@
            && r->Some_0.message@ == match reason {
            Some(s) => s@,
            None => "Invalid login"@,
        },
{
    if valid != 0 {
        return None;
    }
    match prelogintoken {
        Some(t) => Some(UiError { name: t, message: reason_or(reason, "Pre-login required") }),
        None => Some(
            UiError { name: String::from_str("invalid_login"), message: reason_or(reason, "Invalid login") },
        ),
    }
}

} // verus!
