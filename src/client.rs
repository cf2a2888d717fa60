//! The API client: a base domain, an access token, and an HTTP client that
//! sends both a fixed user agent and the token on every request.
use crate::cursor::{CursorModel, PaginatedList};
use crate::trusted::{
    append_path_segments, build_client, header_char_ok, is_valid_header_value, is_valid_url,
    str_seqs, url_parses, url_with_segments,
};
use vstd::prelude::*;
use vstd::string::*;

verus! {

/// The user agent sent with every request.
pub const USER_AGENT: &'static str = "candroid/6.19.0 (123456)";

pub open spec fn is_alpha(c: char) -> bool {
    ('a' <= c && c <= 'z') || ('A' <= c && c <= 'Z')
}

pub open spec fn is_scheme_char(c: char) -> bool {
    is_alpha(c) || ('0' <= c && c <= '9') || c == '+' || c == '-' || c == '.'
}

/// `s` starts with a scheme: a letter, then letters, digits, `+`, `-` or
/// `.`, then `://`.
pub open spec fn has_scheme(s: Seq<char>) -> bool {
    exists|k: int|
        1 <= k && k + 3 <= s.len() && is_alpha(s[0]) && (forall|j: int|
            0 <= j < k ==> is_scheme_char(#[trigger] s[j])) && #[trigger] s[k] == ':' && s[k + 1]
            == '/' && s[k + 2] == '/'
}

pub open spec fn https_prefix() -> Seq<char> {
    seq!['h', 't', 't', 'p', 's', ':', '/', '/']
}

/// The domain as an absolute URL: `https://` is put in front of a domain
/// given without a scheme.
pub open spec fn normalized_domain(s: Seq<char>) -> Seq<char> {
    if has_scheme(s) {
        s
    } else {
        https_prefix() + s
    }
}

/// A token that can be sent in an `Authorization` header.
pub open spec fn token_is_valid(t: Seq<char>) -> bool {
    forall|i: int| 0 <= i < t.len() ==> header_char_ok(#[trigger] t[i])
}

pub open spec fn bearer_prefix() -> Seq<char> {
    seq!['B', 'e', 'a', 'r', 'e', 'r', ' ']
}

/// The path of the current user's profile.
pub open spec fn profile_path() -> Seq<Seq<char>> {
    seq![seq!['a', 'p', 'i'], seq!['v', '1'], seq!['u', 's', 'e', 'r', 's'], seq!['s', 'e', 'l', 'f']]
}

/// The path of the current user's courses.
pub open spec fn courses_path() -> Seq<Seq<char>> {
    seq![seq!['a', 'p', 'i'], seq!['v', '1'], seq!['c', 'o', 'u', 'r', 's', 'e', 's']]
}

/// Why a client could not be constructed.
#[derive(Debug, PartialEq, Eq, Structural)]
pub enum ConfigError {
    /// The domain, once made absolute, is not a URL.
    InvalidDomain,
    /// The token cannot be sent as a header value.
    InvalidToken,
    /// The HTTP client could not be set up on this machine.
    ClientBuild,
}

/// Why a request URL could not be built.
#[derive(Debug, PartialEq, Eq, Structural)]
pub enum RequestError {
    /// The base URL cannot take path segments.
    NonExtendableBase,
}

/// Whether `s` starts with a scheme.
pub fn starts_with_scheme(s: &str) -> (r: bool)
    ensures
        r == has_scheme(s@),
{
    let n = s.unicode_len();
    if n == 0 || !is_alpha_char(s.get_char(0)) {
        return false;
    }
    let mut k: usize = 0;
    while k < n && is_scheme_char_exec(s.get_char(k))
        invariant
            k <= n == s@.len(),
            forall|j: int| 0 <= j < k ==> is_scheme_char(#[trigger] s@[j]),
        decreases n - k,
    {
        k = k + 1;
    }
    if k >= 1 && n - k >= 3 && s.get_char(k) == ':' && s.get_char(k + 1) == '/' && s.get_char(k + 2)
        == '/' {
        assert(s@[k as int] == ':');
        true
    } else {
        proof {
        if has_scheme(s@) {
            let k2 = choose|k2: int|
                1 <= k2 && k2 + 3 <= s@.len() && is_alpha(s@[0]) && (forall|j: int|
                    0 <= j < k2 ==> is_scheme_char(#[trigger] s@[j])) && #[trigger] s@[k2] == ':'
                    && s@[k2 + 1] == '/' && s@[k2 + 2] == '/';
            if k2 < k {
                assert(is_scheme_char(s@[k2]));
            } else if k2 > k {
                assert(is_scheme_char(s@[k as int]));
            }
        }
        }
        false
    }
}

fn is_alpha_char(c: char) -> (r: bool)
    ensures
        r == is_alpha(c),
{
    ('a' <= c && c <= 'z') || ('A' <= c && c <= 'Z')
}

fn is_scheme_char_exec(c: char) -> (r: bool)
    ensures
        r == is_scheme_char(c),
{
    is_alpha_char(c) || ('0' <= c && c <= '9') || c == '+' || c == '-' || c == '.'
}

/// The domain as an absolute URL.
pub fn normalize_domain(domain: &str) -> (r: String)
    ensures
        r@ == normalized_domain(domain@),
{
    if starts_with_scheme(domain) {
        String::from_str(domain)
    } else {
        let prefix = "https://";
        proof {
            reveal_strlit("https://");
            assert(prefix@ =~= https_prefix());
        }
        String::from_str(prefix).concat(domain)
    }
}

/// A domain that already starts with `https://` is used as it is.
pub proof fn https_domain_is_kept(s: Seq<char>)
    requires
        s.len() >= 8,
        s.subrange(0, 8) == https_prefix(),
    ensures
        normalized_domain(s) == s,
{
    assert(s[5] == s.subrange(0, 8)[5]);
    assert forall|j: int| 0 <= j < 5 implies is_scheme_char(#[trigger] s[j]) by {
        assert(s[j] == s.subrange(0, 8)[j]);
    }
    assert(s[6] == s.subrange(0, 8)[6]);
    assert(s[7] == s.subrange(0, 8)[7]);
    assert(s[0] == s.subrange(0, 8)[0]);
    assert(has_scheme(s));
}

/// A domain without a scheme gets `https://` in front.
pub proof fn domain_without_scheme_gets_https(s: Seq<char>)
    requires
        !has_scheme(s),
    ensures
        normalized_domain(s) == https_prefix() + s,
{
}

/// The `Authorization` header value for a bearer token.
pub fn authorization_value(access_token: &str) -> (r: String)
    ensures
        r@ == bearer_prefix() + access_token@,
{
    let prefix = "Bearer ";
    proof {
        reveal_strlit("Bearer ");
        assert(prefix@ =~= bearer_prefix());
    }
    String::from_str(prefix).concat(access_token)
}

/// An authenticated client of the API.
pub struct CanvasScraper {
    domain: String,
    access_token: String,
    /// The user agent the client was built to send.
    user_agent: String,
    /// The `Authorization` value the client was built to send.
    authorization: String,
    client: reqwest::Client,
}

impl CanvasScraper {
    /// The base URL that requests are built on.
    pub closed spec fn spec_domain(&self) -> Seq<char> {
        self.domain@
    }

    /// The access token sent with every request.
    pub closed spec fn spec_access_token(&self) -> Seq<char> {
        self.access_token@
    }

    /// The user agent that the client sends with every request.
    pub closed spec fn spec_user_agent(&self) -> Seq<char> {
        self.user_agent@
    }

    /// The `Authorization` header value that the client sends with every request.
    pub closed spec fn spec_authorization(&self) -> Seq<char> {
        self.authorization@
    }

    /// A client for `domain` that authenticates with `access_token`.
    ///
    /// The domain is made absolute first; it must then be a URL, and the
    /// token must be sendable in a header.
    pub fn new(domain: &str, access_token: &str) -> (r: Result<CanvasScraper, ConfigError>)
        ensures
            match r {
                Ok(s) => s.spec_domain() == normalized_domain(domain@) && s.spec_access_token()
                    == access_token@ && s.spec_authorization() == bearer_prefix() + access_token@
                    && s.spec_user_agent() == USER_AGENT@ && url_parses(normalized_domain(domain@)) && token_is_valid(
                    access_token@,
                ),
                Err(ConfigError::InvalidDomain) => !url_parses(normalized_domain(domain@)),
                Err(ConfigError::InvalidToken) => url_parses(normalized_domain(domain@))
                    && !token_is_valid(access_token@),
                Err(ConfigError::ClientBuild) => url_parses(normalized_domain(domain@))
                    && token_is_valid(access_token@),
            },
    {
        let base = normalize_domain(domain);
        if !is_valid_url(base.as_str()) {
            return Err(ConfigError::InvalidDomain);
        }
        let authorization = authorization_value(access_token);
        let ok = is_valid_header_value(authorization.as_str());
        proof {
            let a = authorization@;
            assert(a =~= bearer_prefix() + access_token@);
            if token_is_valid(access_token@) {
                assert forall|i: int| 0 <= i < a.len() implies header_char_ok(#[trigger] a[i]) by {
                    if i >= 7 {
                        assert(a[i] == access_token@[i - 7]);
                    }
                }
            } else {
                let i = choose|i: int| 0 <= i < access_token@.len() && !header_char_ok(
                    #[trigger] access_token@[i],
                );
                assert(a[i + 7] == access_token@[i]);
            }
        }
        if !ok {
            return Err(ConfigError::InvalidToken);
        }
        match build_client(String::from_str(USER_AGENT), authorization) {
            Some((client, user_agent, authorization)) => Ok(
                CanvasScraper {
                    domain: base,
                    access_token: String::from_str(access_token),
                    user_agent,
                    authorization,
                    client,
                },
            ),
            None => Err(ConfigError::ClientBuild),
        }
    }

    /// The base URL that requests are built on.
    pub fn domain(&self) -> (r: &str)
        ensures
            r@ == self.spec_domain(),
    {
        self.domain.as_str()
    }

    /// The access token sent with every request.
    pub fn access_token(&self) -> (r: &str)
        ensures
            r@ == self.spec_access_token(),
    {
        self.access_token.as_str()
    }

    /// The user agent that the client sends with every request.
    pub fn user_agent(&self) -> (r: &str)
        ensures
            r@ == self.spec_user_agent(),
    {
        self.user_agent.as_str()
    }

    /// The `Authorization` header value that the client sends with every request.
    pub fn authorization(&self) -> (r: &str)
        ensures
            r@ == self.spec_authorization(),
    {
        self.authorization.as_str()
    }

    /// The HTTP client, which sends the user agent and the token.
    pub fn client(&self) -> &reqwest::Client {
        &self.client
    }

    /// The URL of an endpoint: the base URL with the endpoint's path
    /// segments appended in order.
    pub fn endpoint_url(&self, end_point: Vec<&str>) -> (r: Result<String, RequestError>)
        ensures
            match r {
                Ok(u) => url_with_segments(self.spec_domain(), str_seqs(end_point@)) == Some(u@),
                Err(_) => url_with_segments(self.spec_domain(), str_seqs(end_point@)) is None,
            },
    {
        match append_path_segments(self.domain.as_str(), &end_point) {
            Some(u) => Ok(u),
            None => Err(RequestError::NonExtendableBase),
        }
    }

    /// The URL of the current user's profile.
    pub fn user_profile_url(&self) -> (r: Result<String, RequestError>)
        ensures
            match r {
                Ok(u) => url_with_segments(self.spec_domain(), profile_path()) == Some(u@),
                Err(_) => url_with_segments(self.spec_domain(), profile_path()) is None,
            },
    {
        let path = vec!["api", "v1", "users", "self"];
        proof {
            reveal_strlit("api");
            reveal_strlit("v1");
            reveal_strlit("users");
            reveal_strlit("self");
            assert(path@.len() == 4);
            assert(str_seqs(path@)[0] =~= profile_path()[0]);
            assert(str_seqs(path@)[1] =~= profile_path()[1]);
            assert(str_seqs(path@)[2] =~= profile_path()[2]);
            assert(str_seqs(path@)[3] =~= profile_path()[3]);
            assert(str_seqs(path@) =~= profile_path());
        }
        self.endpoint_url(path)
    }

    /// A cursor over the current user's courses.
    pub fn get_courses(&self) -> (r: Result<PaginatedList, RequestError>)
        ensures
            match r {
                Ok(c) => url_with_segments(self.spec_domain(), courses_path()) matches Some(u)
                    && c@ == (CursorModel { link: Some(u), pending: Seq::empty(), aborted: false }),
                Err(_) => url_with_segments(self.spec_domain(), courses_path()) is None,
            },
    {
        let path = vec!["api", "v1", "courses"];
        proof {
            reveal_strlit("api");
            reveal_strlit("v1");
            reveal_strlit("courses");
            assert(path@.len() == 3);
            assert(str_seqs(path@)[0] =~= courses_path()[0]);
            assert(str_seqs(path@)[1] =~= courses_path()[1]);
            assert(str_seqs(path@)[2] =~= courses_path()[2]);
            assert(str_seqs(path@) =~= courses_path());
        }
        match self.endpoint_url(path) {
            Ok(u) => Ok(PaginatedList::new(u)),
            Err(e) => Err(e),
        }
    }
}

} // verus!
