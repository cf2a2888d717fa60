//! The device (QR code) authorization exchange, as a state machine.
//!
//! The flow decides; its owner performs the requests. `AuthFlow::start`
//! reads the QR URL and asks for the mobile-verify request; each response is
//! handed back to `AuthFlow::handle` as an event, which answers with the next
//! action. The exchange is one-shot: any failure ends it for good.
use crate::client::USER_AGENT;
use crate::trusted::{
    append_path_segments, append_query_pairs, query_pairs, str_seqs, string_pairs,
    url_parses, url_query_pairs, url_with_query, url_with_segments,
};
use vstd::prelude::*;
use vstd::string::*;

verus! {

/// The fixed endpoint that hands out client credentials for a domain.
pub const CANVAS_VERIFY_URL: &'static str = "https://canvas.instructure.com/api/v1/mobile_verify.json";

/// The client credentials that the mobile-verify endpoint hands out.
pub struct MobileVerifyResult {
    pub client_id: String,
    pub client_secret: String,
    pub base_url: String,
}

/// The tokens that the token endpoint hands out.
pub struct TokenPair {
    pub access_token: String,
    pub refresh_token: String,
}

/// The grant type of the token request.
pub const GRANT_TYPE: &'static str = "authorization_code";

/// The redirect URI of the token request: the out-of-band one.
pub const REDIRECT_URI: &'static str = "urn:ietf:wg:oauth:2.0:oob";

/// The content type of the token request's body.
pub const TOKEN_CONTENT_TYPE: &'static str = "application/json";

/// The token request to send: a POST to `url`, with `content_type` as its
/// content type, of a JSON object whose string members `client_id`,
/// `client_secret`, `code`, `grant_type` and `redirect_uri` are these fields.
pub struct TokenRequest {
    pub url: String,
    pub content_type: String,
    pub client_id: String,
    pub client_secret: String,
    pub code: String,
    pub grant_type: String,
    pub redirect_uri: String,
}

/// Why the exchange failed.
#[derive(Debug, PartialEq, Eq, Structural)]
pub enum AuthError {
    /// The QR URL is not a URL, or lacks `domain` or `code_android`.
    MalformedQrUrl,
    /// The mobile-verify request could not be made or did not succeed.
    VerifyRequestFailed,
    /// The mobile-verify response lacks the client credentials.
    VerifyResponseMalformed,
    /// The base URL handed out cannot take the token endpoint's path.
    InvalidBaseUrl,
    /// The token request could not be made.
    TokenRequestFailed,
    /// The token response is not a token pair.
    TokenResponseMalformed,
    /// An event arrived that the flow was not waiting for.
    UnexpectedEvent,
}

/// What the owner of the flow observed.
pub enum AuthEvent {
    VerifyFailed,
    VerifyMalformed,
    Verified(MobileVerifyResult),
    TokenFailed,
    TokenMalformed,
    TokenReceived(TokenPair),
}

/// What the owner of the flow is to do next.
pub enum AuthAction {
    /// Send a GET to this mobile-verify URL.
    RequestVerify(String),
    /// Send this token request.
    RequestToken(TokenRequest),
    /// The exchange succeeded for this domain.
    Complete(String, TokenPair),
    /// The exchange failed.
    Abort(AuthError),
}

/// Where the flow stands.
#[derive(PartialEq, Eq, Structural, Clone, Copy)]
pub enum AuthStage {
    Verifying,
    ExchangingToken,
    Finished,
    Failed,
}

/// An event as the state machine sees it; a verification carries whether
/// the token endpoint could be built from it.
pub ghost enum EventKind {
    VerifyFailed,
    VerifyMalformed,
    Verified(bool),
    TokenFailed,
    TokenMalformed,
    TokenReceived,
}

/// An action as the state machine sees it.
pub ghost enum ActionKind {
    RequestVerify,
    RequestToken,
    Complete,
    Abort(AuthError),
}

/// One transition: the next stage and the kind of action taken.
pub open spec fn auth_step(stage: AuthStage, event: EventKind) -> (AuthStage, ActionKind) {
    match stage {
        AuthStage::Verifying => match event {
            EventKind::VerifyFailed => (
                AuthStage::Failed,
                ActionKind::Abort(AuthError::VerifyRequestFailed),
            ),
            EventKind::VerifyMalformed => (
                AuthStage::Failed,
                ActionKind::Abort(AuthError::VerifyResponseMalformed),
            ),
            EventKind::Verified(true) => (AuthStage::ExchangingToken, ActionKind::RequestToken),
            EventKind::Verified(false) => (
                AuthStage::Failed,
                ActionKind::Abort(AuthError::InvalidBaseUrl),
            ),
            _ => (AuthStage::Failed, ActionKind::Abort(AuthError::UnexpectedEvent)),
        },
        AuthStage::ExchangingToken => match event {
            EventKind::TokenFailed => (
                AuthStage::Failed,
                ActionKind::Abort(AuthError::TokenRequestFailed),
            ),
            EventKind::TokenMalformed => (
                AuthStage::Failed,
                ActionKind::Abort(AuthError::TokenResponseMalformed),
            ),
            EventKind::TokenReceived => (AuthStage::Finished, ActionKind::Complete),
            _ => (AuthStage::Failed, ActionKind::Abort(AuthError::UnexpectedEvent)),
        },
        _ => (stage, ActionKind::Abort(AuthError::UnexpectedEvent)),
    }
}

/// The kinds of the actions taken for a run of events.
pub open spec fn auth_run(stage: AuthStage, events: Seq<EventKind>) -> Seq<ActionKind>
    decreases events.len(),
{
    if events.len() == 0 {
        Seq::empty()
    } else {
        let (next, action) = auth_step(stage, events[0]);
        seq![action] + auth_run(next, events.drop_first())
    }
}

/// The path of the token endpoint under the handed-out base URL.
pub open spec fn token_path() -> Seq<Seq<char>> {
    seq![
        seq!['l', 'o', 'g', 'i', 'n'],
        seq!['o', 'a', 'u', 't', 'h', '2'],
        seq!['t', 'o', 'k', 'e', 'n'],
    ]
}

pub open spec fn event_kind(e: AuthEvent) -> EventKind {
    match e {
        AuthEvent::VerifyFailed => EventKind::VerifyFailed,
        AuthEvent::VerifyMalformed => EventKind::VerifyMalformed,
        AuthEvent::Verified(m) => EventKind::Verified(
            url_with_segments(m.base_url@, token_path()) is Some,
        ),
        AuthEvent::TokenFailed => EventKind::TokenFailed,
        AuthEvent::TokenMalformed => EventKind::TokenMalformed,
        AuthEvent::TokenReceived(_) => EventKind::TokenReceived,
    }
}

pub open spec fn action_kind(a: AuthAction) -> ActionKind {
    match a {
        AuthAction::RequestVerify(_) => ActionKind::RequestVerify,
        AuthAction::RequestToken(_) => ActionKind::RequestToken,
        AuthAction::Complete(_, _) => ActionKind::Complete,
        AuthAction::Abort(e) => ActionKind::Abort(e),
    }
}

/// The value of the first pair whose key is `key`.
pub open spec fn first_value(pairs: Seq<(Seq<char>, Seq<char>)>, key: Seq<char>) -> Option<
    Seq<char>,
>
    decreases pairs.len(),
{
    if pairs.len() == 0 {
        None
    } else {
        match first_value(pairs.drop_last(), key) {
            Some(v) => Some(v),
            None => if pairs.last().0 == key {
                Some(pairs.last().1)
            } else {
                None
            },
        }
    }
}

pub open spec fn domain_key() -> Seq<char> {
    seq!['d', 'o', 'm', 'a', 'i', 'n']
}

pub open spec fn code_key() -> Seq<char> {
    seq!['c', 'o', 'd', 'e', '_', 'a', 'n', 'd', 'r', 'o', 'i', 'd']
}

pub open spec fn user_agent_key() -> Seq<char> {
    seq!['u', 's', 'e', 'r', '-', 'a', 'g', 'e', 'n', 't']
}

/// The value of the first pair whose key is `key`.
pub fn find_query_value(pairs: &Vec<(String, String)>, key: &str) -> (r: Option<String>)
    ensures
        match r {
            Some(v) => first_value(string_pairs(pairs@), key@) == Some(v@),
            None => first_value(string_pairs(pairs@), key@) is None,
        },
{
    let ghost all = string_pairs(pairs@);
    let k = String::from_str(key);
    let mut i: usize = 0;
    while i < pairs.len()
        invariant
            0 <= i <= pairs@.len(),
            all == string_pairs(pairs@),
            k@ == key@,
            first_value(all.take(i as int), key@) is None,
        decreases pairs@.len() - i,
    {
        assert(all.take(i + 1).drop_last() =~= all.take(i as int));
        if pairs[i].0 == k {
            proof {
                lemma_first_value_prefix(all, key@, i + 1);
            }
            return Some(pairs[i].1.clone());
        }
        i = i + 1;
    }
    assert(all.take(i as int) =~= all);
    None
}

proof fn lemma_first_value_prefix(pairs: Seq<(Seq<char>, Seq<char>)>, key: Seq<char>, k: int)
    requires
        0 <= k <= pairs.len(),
        first_value(pairs.take(k), key) is Some,
    ensures
        first_value(pairs, key) == first_value(pairs.take(k), key),
    decreases pairs.len() - k,
{
    if k < pairs.len() {
        assert(pairs.take(k + 1).drop_last() =~= pairs.take(k));
        lemma_first_value_prefix(pairs, key, k + 1);
    } else {
        assert(pairs.take(k) =~= pairs);
    }
}

/// The domain and code that a QR URL carries.
pub open spec fn qr_fields(qr_url: Seq<char>) -> Option<(Seq<char>, Seq<char>)> {
    if url_parses(qr_url) {
        match (
            first_value(url_query_pairs(qr_url), domain_key()),
            first_value(url_query_pairs(qr_url), code_key()),
        ) {
            (Some(d), Some(c)) => Some((d, c)),
            _ => None,
        }
    } else {
        None
    }
}

/// The authorization exchange in progress.
pub struct AuthFlow {
    stage: AuthStage,
    domain: String,
    code: String,
}

impl AuthFlow {
    pub closed spec fn spec_stage(&self) -> AuthStage {
        self.stage
    }

    /// The domain read from the QR URL.
    pub closed spec fn spec_domain(&self) -> Seq<char> {
        self.domain@
    }

    /// The authorization code read from the QR URL.
    pub closed spec fn spec_code(&self) -> Seq<char> {
        self.code@
    }

    pub fn stage(&self) -> (r: AuthStage)
        ensures
            r == self.spec_stage(),
    {
        self.stage
    }

    /// Begins the exchange for a QR URL: its `domain` and `code_android`
    /// query parameters are read, and the mobile-verify request for that
    /// domain and the fixed user agent is asked for.
    pub fn start(qr_url: &str) -> (r: (AuthFlow, AuthAction))
        ensures
            match qr_fields(qr_url@) {
                None => r.0.spec_stage() == AuthStage::Failed && r.1 == AuthAction::Abort(
                    AuthError::MalformedQrUrl,
                ),
                Some((d, c)) => r.0.spec_domain() == d && r.0.spec_code() == c && match r.1 {
                    AuthAction::RequestVerify(u) => r.0.spec_stage() == AuthStage::Verifying
                        && url_parses(CANVAS_VERIFY_URL@) && u@ == url_with_query(
                        CANVAS_VERIFY_URL@,
                        seq![(domain_key(), d), (user_agent_key(), USER_AGENT@)],
                    ),
                    AuthAction::Abort(e) => r.0.spec_stage() == AuthStage::Failed && e
                        == AuthError::VerifyRequestFailed && !url_parses(CANVAS_VERIFY_URL@),
                    _ => false,
                },
            },
    {
        let failed = AuthFlow { stage: AuthStage::Failed, domain: String::new(), code: String::new() };
        let pairs = match query_pairs(qr_url) {
            Some(p) => p,
            None => return (failed, AuthAction::Abort(AuthError::MalformedQrUrl)),
        };
        let dk = "domain";
        let ck = "code_android";
        let uk = "user-agent";
        proof {
            reveal_strlit("domain");
            reveal_strlit("code_android");
            reveal_strlit("user-agent");
            assert(dk@ =~= domain_key());
            assert(ck@ =~= code_key());
            assert(uk@ =~= user_agent_key());
        }
        let domain = match find_query_value(&pairs, dk) {
            Some(d) => d,
            None => return (failed, AuthAction::Abort(AuthError::MalformedQrUrl)),
        };
        let code = match find_query_value(&pairs, ck) {
            Some(c) => c,
            None => return (failed, AuthAction::Abort(AuthError::MalformedQrUrl)),
        };
        let mut query: Vec<(String, String)> = Vec::new();
        query.push((String::from_str(dk), domain.clone()));
        query.push((String::from_str(uk), String::from_str(USER_AGENT)));
        assert(string_pairs(query@) =~= seq![(domain_key(), domain@), (user_agent_key(), USER_AGENT@)]);
        let verify_base = CANVAS_VERIFY_URL;
        match append_query_pairs(verify_base, &query) {
            Some(u) => (AuthFlow { stage: AuthStage::Verifying, domain, code }, AuthAction::RequestVerify(u)),
            None => (
                AuthFlow { stage: AuthStage::Failed, domain, code },
                AuthAction::Abort(AuthError::VerifyRequestFailed),
            ),
        }
    }

    /// Takes in what the owner observed and answers with the next action.
    pub fn handle(&mut self, event: AuthEvent) -> (r: AuthAction)
        ensures
            (final(self).spec_stage(), action_kind(r)) == auth_step(
                old(self).spec_stage(),
                event_kind(event),
            ),
            final(self).spec_domain() == old(self).spec_domain(),
            final(self).spec_code() == old(self).spec_code(),
            r matches AuthAction::RequestToken(t) ==> event matches AuthEvent::Verified(m) && Some(
                t.url@,
            ) == url_with_segments(m.base_url@, token_path()) && t.client_id == m.client_id
                && t.client_secret == m.client_secret && t.code@ == old(self).spec_code()
                && t.grant_type@ == GRANT_TYPE@ && t.redirect_uri@ == REDIRECT_URI@
                && t.content_type@ == TOKEN_CONTENT_TYPE@,
            r matches AuthAction::Complete(d, p) ==> event matches AuthEvent::TokenReceived(q)
                && d@ == old(self).spec_domain() && p == q,
    {
        match self.stage {
            AuthStage::Verifying => match event {
                AuthEvent::VerifyFailed => self.fail(AuthError::VerifyRequestFailed),
                AuthEvent::VerifyMalformed => self.fail(AuthError::VerifyResponseMalformed),
                AuthEvent::Verified(m) => {
                    let path = vec!["login", "oauth2", "token"];
                    proof {
                        reveal_strlit("login");
                        reveal_strlit("oauth2");
                        reveal_strlit("token");
                        assert(str_seqs(path@)[0] =~= token_path()[0]);
                        assert(str_seqs(path@)[1] =~= token_path()[1]);
                        assert(str_seqs(path@)[2] =~= token_path()[2]);
                        assert(str_seqs(path@) =~= token_path());
                    }
                    match append_path_segments(m.base_url.as_str(), &path) {
                        Some(url) => {
                            self.stage = AuthStage::ExchangingToken;
                            AuthAction::RequestToken(
                                TokenRequest {
                                    url,
                                    content_type: String::from_str(TOKEN_CONTENT_TYPE),
                                    client_id: m.client_id,
                                    client_secret: m.client_secret,
                                    code: self.code.clone(),
                                    grant_type: String::from_str(GRANT_TYPE),
                                    redirect_uri: String::from_str(REDIRECT_URI),
                                },
                            )
                        },
                        None => self.fail(AuthError::InvalidBaseUrl),
                    }
                },
                _ => self.fail(AuthError::UnexpectedEvent),
            },
            AuthStage::ExchangingToken => match event {
                AuthEvent::TokenFailed => self.fail(AuthError::TokenRequestFailed),
                AuthEvent::TokenMalformed => self.fail(AuthError::TokenResponseMalformed),
                AuthEvent::TokenReceived(p) => {
                    self.stage = AuthStage::Finished;
                    AuthAction::Complete(self.domain.clone(), p)
                },
                _ => self.fail(AuthError::UnexpectedEvent),
            },
            _ => AuthAction::Abort(AuthError::UnexpectedEvent),
        }
    }

    fn fail(&mut self, e: AuthError) -> (r: AuthAction)
        ensures
            final(self).spec_stage() == AuthStage::Failed,
            final(self).spec_domain() == old(self).spec_domain(),
            final(self).spec_code() == old(self).spec_code(),
            r == AuthAction::Abort(e),
    {
        self.stage = AuthStage::Failed;
        AuthAction::Abort(e)
    }
}

proof fn lemma_auth_run_len(stage: AuthStage, events: Seq<EventKind>)
    ensures
        auth_run(stage, events).len() == events.len(),
    decreases events.len(),
{
    if events.len() > 0 {
        lemma_auth_run_len(auth_step(stage, events[0]).0, events.drop_first());
    }
}

/// Past verification, no stage of the flow asks for a token again.
proof fn lemma_no_token_request_after(stage: AuthStage, events: Seq<EventKind>)
    requires
        stage != AuthStage::Verifying,
    ensures
        forall|i: int|
            0 <= i < events.len() ==> #[trigger] auth_run(stage, events)[i]
                != ActionKind::RequestToken,
    decreases events.len(),
{
    if events.len() > 0 {
        let (next, action) = auth_step(stage, events[0]);
        lemma_no_token_request_after(next, events.drop_first());
        lemma_auth_run_len(next, events.drop_first());
        assert forall|i: int| 0 <= i < events.len() implies #[trigger] auth_run(stage, events)[i]
            != ActionKind::RequestToken by {
            if i > 0 {
                assert(auth_run(stage, events)[i] == auth_run(next, events.drop_first())[i - 1]);
            }
        }
    }
}

/// Verification comes before the token exchange: a token is asked for only
/// in answer to the first event, and only when that event is a successful
/// verification; after a failed verification no token is ever asked for.
pub proof fn token_exchange_only_after_verification(events: Seq<EventKind>)
    ensures
        forall|i: int|
            0 <= i < events.len() && #[trigger] auth_run(AuthStage::Verifying, events)[i]
                == ActionKind::RequestToken ==> i == 0 && events[0] == EventKind::Verified(true),
{
    if events.len() > 0 {
        let (next, action) = auth_step(AuthStage::Verifying, events[0]);
        lemma_no_token_request_after(next, events.drop_first());
        lemma_auth_run_len(next, events.drop_first());
        assert forall|i: int|
            0 <= i < events.len() && #[trigger] auth_run(AuthStage::Verifying, events)[i]
                == ActionKind::RequestToken implies i == 0 && events[0] == EventKind::Verified(
            true,
        ) by {
            if i > 0 {
                assert(auth_run(AuthStage::Verifying, events)[i] == auth_run(
                    next,
                    events.drop_first(),
                )[i - 1]);
            }
        }
    }
}

} // verus!
