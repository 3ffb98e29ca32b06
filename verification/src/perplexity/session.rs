//! The credentials and the account of a Perplexity session.
use vstd::prelude::*;

use crate::text::{push_str, str_eq};

verus! {

/// The cookies taken from the browser.
pub struct CookieTokens {
    pub session_token: String,
    pub cf_clearance: String,
    pub csrf_token: String,
}

/// The account's subscription, from least to most.
#[derive(Clone, Copy, Debug, PartialEq, Eq, Structural)]
pub enum SubscriptionTier {
    Free,
    Pro,
    Max,
}

impl SubscriptionTier {
    /// The place of the tier in the order free, pro, max.
    pub open spec fn rank_spec(self) -> nat {
        match self {
            SubscriptionTier::Free => 0,
            SubscriptionTier::Pro => 1,
            SubscriptionTier::Max => 2,
        }
    }

    /// The place of the tier in the order free, pro, max.
    pub fn rank(&self) -> (r: u8)
        ensures
            r == self.rank_spec(),
    {
        match self {
            SubscriptionTier::Free => 0,
            SubscriptionTier::Pro => 1,
            SubscriptionTier::Max => 2,
        }
    }

    /// This tier is below `other`.
    pub fn is_below(&self, other: &Self) -> (b: bool)
        ensures
            b == (self.rank_spec() < other.rank_spec()),
    {
        self.rank() < other.rank()
    }

    /// The tier named `s` in lower case, or free for any other text.
    pub open spec fn parse_spec(s: Seq<char>) -> SubscriptionTier {
        if s == "pro"@ {
            SubscriptionTier::Pro
        } else if s == "max"@ {
            SubscriptionTier::Max
        } else {
            SubscriptionTier::Free
        }
    }

    /// The tier named `s` in lower case, or free for any other text.
    pub fn parse_or_free(s: &str) -> (t: Self)
        ensures
            t == Self::parse_spec(s@),
    {
        if str_eq(s, "pro") {
            SubscriptionTier::Pro
        } else if str_eq(s, "max") {
            SubscriptionTier::Max
        } else {
            SubscriptionTier::Free
        }
    }
}

impl Default for SubscriptionTier {
    fn default() -> (t: Self)
        ensures
            t == SubscriptionTier::Free,
    {
        SubscriptionTier::Free
    }
}

/// What continues a conversation on Perplexity's side.
pub struct ThreadState {
    pub last_backend_uuid: String,
    pub read_write_token: String,
}

/// `true` or `false`, as `{}` writes a `bool`.
pub open spec fn bool_text(b: bool) -> Seq<char> {
    if b {
        "true"@
    } else {
        "false"@
    }
}

/// The cookie header of a session.
pub open spec fn cookie_spec(session_token: Seq<char>, cf_clearance: Seq<char>, incognito: bool) -> Seq<
    char,
> {
    "__Secure-next-auth.session-token="@ + session_token + "; cf_clearance="@ + cf_clearance
        + "; pplx.is-incognito="@ + bool_text(incognito)
}

/// The cookie header of a session.
pub fn make_cookie(session_token: &str, cf_clearance: &str, incognito: bool) -> (r: String)
    ensures
        r@ == cookie_spec(session_token@, cf_clearance@, incognito),
{
    let mut s = String::new();
    push_str(&mut s, "__Secure-next-auth.session-token=");
    push_str(&mut s, session_token);
    push_str(&mut s, "; cf_clearance=");
    push_str(&mut s, cf_clearance);
    push_str(&mut s, "; pplx.is-incognito=");
    if incognito {
        push_str(&mut s, "true");
    } else {
        push_str(&mut s, "false");
    }
    s
}

} // verus!
