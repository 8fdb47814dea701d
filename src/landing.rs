use vstd::prelude::*;

use crate::identity::{has_service, Identity};

verus! {

/// What the start page shows.
#[derive(Clone, Copy, Debug, PartialEq, Eq, Structural)]
pub enum Landing {
    /// No session: the login page.
    Login,
    /// The session token names no account: the logged-out page.
    LoggedOut,
    /// The account has not enabled the service yet: the setup page.
    FinishSetup,
    /// The file browser.
    Browse,
}

pub open spec fn landing_spec(has_token: bool, account: Option<Identity>, service: Seq<char>) -> Landing {
    if !has_token {
        Landing::Login
    } else {
        match account {
            None => Landing::LoggedOut,
            Some(a) => if has_service(a, service) {
                Landing::Browse
            } else {
                Landing::FinishSetup
            },
        }
    }
}

/// Chooses the start page from whether the request carries a session token and which account the
/// token names, if any.
pub fn landing(has_token: bool, account: &Option<Identity>, service: &str) -> (r: Landing)
    ensures
        r == landing_spec(has_token, *account, service@),
{
    if !has_token {
        return Landing::Login;
    }
    match account {
        None => Landing::LoggedOut,
        Some(a) => if a.has_service(service) {
            Landing::Browse
        } else {
            Landing::FinishSetup
        },
    }
}

} // verus!
