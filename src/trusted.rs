//! The calls into outside crates that the library's logic makes, with the
//! contracts that the rest of the library relies on.
use vstd::prelude::*;

verus! {

/// A JSON value, carried through the library unread.
#[verifier::external_type_specification]
#[verifier::external_body]
pub struct ExValue(serde_json::Value);

/// An HTTP client with its default headers.
#[verifier::external_type_specification]
#[verifier::external_body]
pub struct ExClient(reqwest::Client);

/// Whether `Url::parse` accepts a text.
pub uninterp spec fn url_parses(s: Seq<char>) -> bool;

/// The serialization of a URL after its path segments are extended.
pub uninterp spec fn url_with_segments(base: Seq<char>, segments: Seq<Seq<char>>) -> Option<
    Seq<char>,
>;

/// The decoded query pairs of a URL, in order.
pub uninterp spec fn url_query_pairs(s: Seq<char>) -> Seq<(Seq<char>, Seq<char>)>;

/// The serialization of a URL after query pairs are appended.
pub uninterp spec fn url_with_query(base: Seq<char>, pairs: Seq<(Seq<char>, Seq<char>)>) -> Seq<
    char,
>;

/// What `serde_json::from_str` reads from a text: nothing when it is not
/// JSON, the elements of an array in order, or any other value whole.
pub uninterp spec fn json_document(s: Seq<char>) -> Option<Result<Seq<serde_json::Value>, serde_json::Value>>;

/// A character that `http::HeaderValue::from_str` accepts: a byte of its
/// UTF-8 encoding is accepted when it is at least 32 and not 127, or a tab,
/// so every character outside ASCII is accepted.
pub open spec fn header_char_ok(c: char) -> bool {
    (c as u32 >= 32 && c as u32 != 127) || c == '\t'
}

pub open spec fn string_pairs(v: Seq<(String, String)>) -> Seq<(Seq<char>, Seq<char>)> {
    v.map_values(|p: (String, String)| (p.0@, p.1@))
}

pub open spec fn str_seqs(v: Seq<&str>) -> Seq<Seq<char>> {
    v.map_values(|s: &str| s@)
}

/// Relies on `url::Url::parse`: whether the text is an absolute URL.
#[verifier::external_body]
pub(crate) fn is_valid_url(s: &str) -> (r: bool)
    ensures
        r == url_parses(s@),
{
    reqwest::Url::parse(s).is_ok()
}

/// Relies on `url::Url::parse`, `Url::path_segments_mut` and
/// `PathSegmentsMut::extend`: the base is parsed, fails when it cannot be a
/// base, and each segment is appended percent-encoded.
#[verifier::external_body]
pub(crate) fn append_path_segments(base: &str, segments: &Vec<&str>) -> (r: Option<String>)
    ensures
        match r {
            Some(u) => url_with_segments(base@, str_seqs(segments@)) == Some(u@),
            None => url_with_segments(base@, str_seqs(segments@)) is None,
        },
        !url_parses(base@) ==> r is None,
{
    let mut url = reqwest::Url::parse(base).ok()?;
    url.path_segments_mut().ok()?.extend(segments.iter());
    Some(url.to_string())
}

/// Relies on `url::Url::parse` and `Url::query_pairs`: the pairs of the
/// query string, percent-decoded, in order.
#[verifier::external_body]
pub(crate) fn query_pairs(s: &str) -> (r: Option<Vec<(String, String)>>)
    ensures
        r is Some <==> url_parses(s@),
        r matches Some(v) ==> string_pairs(v@) == url_query_pairs(s@),
{
    let url = reqwest::Url::parse(s).ok()?;
    Some(url.query_pairs().map(|(k, v)| (k.into_owned(), v.into_owned())).collect())
}

/// Relies on `url::Url::parse` and `Url::query_pairs_mut`: the pairs are
/// appended, form-encoded, to the query of a URL that parses.
#[verifier::external_body]
pub(crate) fn append_query_pairs(base: &str, pairs: &Vec<(String, String)>) -> (r: Option<
    String,
>)
    ensures
        r is Some <==> url_parses(base@),
        r matches Some(u) ==> u@ == url_with_query(base@, string_pairs(pairs@)),
{
    let mut url = reqwest::Url::parse(base).ok()?;
    url.query_pairs_mut().extend_pairs(pairs.iter());
    Some(url.to_string())
}

/// Relies on `http::HeaderValue::from_str`: it accepts a text exactly when
/// each of its characters is accepted.
#[verifier::external_body]
pub(crate) fn is_valid_header_value(s: &str) -> (r: bool)
    ensures
        r == forall|i: int| 0 <= i < s@.len() ==> header_char_ok(#[trigger] s@[i]),
{
    reqwest::header::HeaderValue::from_str(s).is_ok()
}

/// Relies on `reqwest::ClientBuilder`: a client whose default headers are
/// the given user agent and `Authorization` value, handed back together with
/// those two values. Building may fail for reasons outside the arguments (the
/// process's TLS provider, the system's proxy settings), so nothing is
/// promised of whether it succeeds.
#[verifier::external_body]
pub(crate) fn build_client(user_agent: String, authorization: String) -> (r: Option<(reqwest::Client, String, String)>)
    ensures
        r matches Some((_, u, a)) ==> u@ == user_agent@ && a@ == authorization@,
        r is Some ==> forall|i: int|
            0 <= i < authorization@.len() ==> header_char_ok(#[trigger] authorization@[i]),
{
    let mut headers = reqwest::header::HeaderMap::new();
    let value = reqwest::header::HeaderValue::from_str(&authorization).ok()?;
    headers.insert(reqwest::header::AUTHORIZATION, value);
    let client = reqwest::Client::builder().user_agent(&user_agent).default_headers(headers).build().ok()?;
    Some((client, user_agent, authorization))
}

/// Relies on `serde_json::from_str`: the value a text holds, with an array
/// told apart from any other value and its elements moved out in order.
#[verifier::external_body]
pub(crate) fn parse_json_document(body: &str) -> (r: Option<Result<Vec<serde_json::Value>, serde_json::Value>>)
    ensures
        match r {
            None => json_document(body@) is None,
            Some(Ok(items)) => json_document(body@) == Some(Ok::<Seq<serde_json::Value>, serde_json::Value>(items@)),
            Some(Err(value)) => json_document(body@) == Some(Err::<Seq<serde_json::Value>, serde_json::Value>(value)),
        },
{
    match serde_json::from_str::<serde_json::Value>(body) {
        Ok(serde_json::Value::Array(items)) => Some(Ok(items)),
        Ok(other) => Some(Err(other)),
        Err(_) => None,
    }
}

} // verus!
