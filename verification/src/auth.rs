//! Which access token a request to the provider is sent with.

use vstd::prelude::*;
use vstd::string::*;

verus! {

/// An access token of the provider with its time of expiry, in seconds of
/// Unix time, and the token that renews it.
#[derive(Debug, Clone)]
pub struct Token {
    pub access_token: String,
    pub refresh_token: String,
    pub expires_at: i64,
}

/// What has to happen before a request can be sent.
#[derive(Debug, Clone)]
pub enum TokenStep {
    /// Send the request with this access token.
    Use(String),
    /// Renew the access token with this refresh token first.
    Refresh(String),
    /// Ask the user to authorize the application first.
    Authorize,
}

/// A step, by the texts of its tokens.
pub enum StepView {
    Use(Seq<char>),
    Refresh(Seq<char>),
    Authorize,
}

impl View for TokenStep {
    type V = StepView;

    open spec fn view(&self) -> StepView {
        match self {
            TokenStep::Use(t) => StepView::Use(t@),
            TokenStep::Refresh(t) => StepView::Refresh(t@),
            TokenStep::Authorize => StepView::Authorize,
        }
    }
}

/// The step for a token at hand: use it while it has not expired, renew it
/// once it has.
pub open spec fn step_with(token: Token, now: i64) -> StepView {
    if token.expires_at > now {
        StepView::Use(token.access_token@)
    } else {
        StepView::Refresh(token.refresh_token@)
    }
}

/// The step before a request: by the token held in memory, else by the
/// token kept on disk, else by renewing with the configured refresh token,
/// else by asking the user.
pub open spec fn step_before_request(
    cached: Option<Token>,
    stored: Option<Token>,
    configured: Option<String>,
    now: i64,
) -> StepView {
    match cached {
        Some(token) => step_with(token, now),
        None => match stored {
            Some(token) => step_with(token, now),
            None => match configured {
                Some(refresh) => StepView::Refresh(refresh@),
                None => StepView::Authorize,
            },
        },
    }
}

/// The step after the provider refused the access token: renew with the
/// refresh token held in memory, else with the configured one, else ask the
/// user.
pub open spec fn step_after_refusal(cached: Option<Token>, configured: Option<String>) -> StepView {
    match cached {
        Some(token) => StepView::Refresh(token.refresh_token@),
        None => match configured {
            Some(refresh) => StepView::Refresh(refresh@),
            None => StepView::Authorize,
        },
    }
}

impl Token {
    /// Whether the token has not expired at the time `now`.
    pub fn is_fresh(&self, now: i64) -> (r: bool)
        ensures
            r == (self.expires_at > now),
    {
        self.expires_at > now
    }

    /// The step for this token at the time `now`.
    pub fn step(&self, now: i64) -> (r: TokenStep)
        ensures
            r@ == step_with(*self, now),
    {
        if self.is_fresh(now) {
            TokenStep::Use(self.access_token.clone())
        } else {
            TokenStep::Refresh(self.refresh_token.clone())
        }
    }
}

/// The step before a request is sent. The token on disk is only read where
/// none is held in memory.
pub fn ensure_token(
    cached: Option<&Token>,
    stored: Option<&Token>,
    configured: Option<&String>,
    now: i64,
) -> (r: TokenStep)
    ensures
        r@ == step_before_request(
            match cached {
                Some(t) => Some(*t),
                None => None,
            },
            match stored {
                Some(t) => Some(*t),
                None => None,
            },
            match configured {
                Some(t) => Some(*t),
                None => None,
            },
            now,
        ),
{
    match cached {
        Some(token) => token.step(now),
        None => match stored {
            Some(token) => token.step(now),
            None => match configured {
                Some(refresh) => TokenStep::Refresh(refresh.clone()),
                None => TokenStep::Authorize,
            },
        },
    }
}

/// The step after the provider answered that the request is unauthorized.
pub fn after_unauthorized(cached: Option<&Token>, configured: Option<&String>) -> (r: TokenStep)
    ensures
        r@ == step_after_refusal(
            match cached {
                Some(t) => Some(*t),
                None => None,
            },
            match configured {
                Some(t) => Some(*t),
                None => None,
            },
        ),
{
    match cached {
        Some(token) => TokenStep::Refresh(token.refresh_token.clone()),
        None => match configured {
            Some(refresh) => TokenStep::Refresh(refresh.clone()),
            None => TokenStep::Authorize,
        },
    }
}

/// Whether `s` ends with `suffix`.
pub open spec fn ends_with(s: Seq<char>, suffix: Seq<char>) -> bool {
    suffix.len() <= s.len() && s.subrange(s.len() - suffix.len(), s.len() as int) == suffix
}

/// `s` without any trailing repetitions of `suffix`.
pub open spec fn without_trailing(s: Seq<char>, suffix: Seq<char>) -> Seq<char>
    decreases s.len(),
{
    if suffix.len() > 0 && ends_with(s, suffix) {
        without_trailing(s.subrange(0, s.len() - suffix.len()), suffix)
    } else {
        s
    }
}

/// The address at which tokens are issued: the root of the API without its
/// trailing `/api/v3`, followed by `/oauth/token`.
pub open spec fn token_address(base: Seq<char>) -> Seq<char> {
    without_trailing(base, "/api/v3"@) + "/oauth/token"@
}

/// Whether the first `len` characters of `text` end with `suffix`.
fn prefix_ends_with(text: &str, len: usize, suffix: &str) -> (r: bool)
    requires
        len <= text@.len(),
    ensures
        r == ends_with(text@.subrange(0, len as int), suffix@),
{
    let n = suffix.unicode_len();
    if n > len {
        return false;
    }
    let ghost head = text@.subrange(0, len as int);
    let mut i: usize = 0;
    while i < n
        invariant
            n == suffix@.len(),
            n <= len <= text@.len(),
            i <= n,
            head == text@.subrange(0, len as int),
            forall|k: int| 0 <= k < i ==> head[len - n + k] == suffix@[k],
        decreases n - i,
    {
        if text.get_char(len - n + i) != suffix.get_char(i) {
            assert(head.subrange(len - n, len as int)[i as int] != suffix@[i as int]);
            return false;
        }
        i = i + 1;
    }
    assert(head.subrange(len - n, len as int) =~= suffix@);
    true
}

/// The address at which tokens are issued.
pub fn token_url(base_url: &str) -> (r: String)
    ensures
        r@ == token_address(base_url@),
{
    proof {
        reveal_strlit("/api/v3");
    }
    let step: usize = 7;
    let mut len = base_url.unicode_len();
    assert(base_url@.subrange(0, len as int) =~= base_url@);
    while len >= step && prefix_ends_with(base_url, len, "/api/v3")
        invariant
            len <= base_url@.len(),
            step == 7,
            "/api/v3"@.len() == 7,
            without_trailing(base_url@, "/api/v3"@) == without_trailing(
                base_url@.subrange(0, len as int),
                "/api/v3"@,
            ),
        decreases len,
    {
        assert(base_url@.subrange(0, len as int).subrange(0, len - 7) =~= base_url@.subrange(
            0,
            len - 7,
        ));
        len = len - step;
    }
    let mut out = String::from_str(base_url.substring_char(0, len));
    out.append("/oauth/token");
    out
}

} // verus!
