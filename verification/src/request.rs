//! Requests as plain values, and the one place where request text becomes a
//! URL: the `url` crate parses the base and appends the query pairs.

use vstd::prelude::*;
use vstd::string::StringExecFns;
use vstd::utf8::encode_utf8;

use crate::error::Error;

verus! {

/// The `url` crate's error for text that is not an absolute URL.
#[verifier::external_type_specification]
#[verifier::external_body]
pub struct ExUrlParseError(url::ParseError);

/// The most bytes that the base and the query pairs of one request may hold
/// together, before encoding. Longer requests are refused unsent.
pub const MAX_REQUEST_BYTES: usize = 1_048_576;

/// The HTTP method of a request.
#[derive(Debug, Clone, Copy, PartialEq, Eq, Structural)]
pub enum Method {
    Get,
    Post,
    Patch,
}

/// One value of a JSON object sent as a request body.
#[derive(Debug, Clone, PartialEq, Eq)]
pub enum FieldValue {
    Text(String),
    Flag(bool),
}

/// What a request carries.
#[derive(Debug, Clone, PartialEq, Eq)]
pub enum Body {
    /// Nothing.
    Empty,
    /// A JSON object with these members, in this order, announced as
    /// `application/json`.
    Fields(Vec<(String, FieldValue)>),
    /// Text that the caller has already serialized, sent as it is.
    Raw(String),
}

/// A request ready to be sent: method, absolute URL with its query string,
/// and body.
#[derive(Debug, Clone, PartialEq, Eq)]
pub struct Request {
    pub method: Method,
    pub url: String,
    pub body: Body,
}

/// The secrets and identifiers a deployment is configured with.
#[derive(Debug, Clone, PartialEq, Eq)]
pub struct Config {
    /// The project whose document store is read and written.
    pub project_id: String,
    /// The key under which the identity service is called.
    pub web_api_key: String,
    /// The account that signs in.
    pub email: String,
    pub password: String,
    /// The key for video lookups on the video platform.
    pub youtube_videos_key: String,
    /// The key for channel lookups on the video platform.
    pub youtube_channels_key: String,
}

/// A body member's value as a mathematical value.
pub ghost enum FieldModel {
    Text(Seq<char>),
    Flag(bool),
}

/// A body as a mathematical value.
pub ghost enum BodyModel {
    Empty,
    Fields(Seq<(Seq<char>, FieldModel)>),
    Raw(Seq<char>),
}

/// A request as a mathematical value.
pub ghost struct RequestModel {
    pub method: Method,
    pub url: Seq<char>,
    pub body: BodyModel,
}

impl View for FieldValue {
    type V = FieldModel;

    open spec fn view(&self) -> FieldModel {
        match self {
            FieldValue::Text(text) => FieldModel::Text(text@),
            FieldValue::Flag(flag) => FieldModel::Flag(*flag),
        }
    }
}

impl View for Body {
    type V = BodyModel;

    open spec fn view(&self) -> BodyModel {
        match self {
            Body::Empty => BodyModel::Empty,
            Body::Fields(fields) => BodyModel::Fields(
                fields@.map_values(|f: (String, FieldValue)| (f.0@, f.1@)),
            ),
            Body::Raw(text) => BodyModel::Raw(text@),
        }
    }
}

impl View for Request {
    type V = RequestModel;

    open spec fn view(&self) -> RequestModel {
        RequestModel { method: self.method, url: self.url@, body: self.body@ }
    }
}

/// Query pairs as mathematical values.
pub open spec fn query_view(query: Seq<(String, String)>) -> Seq<(Seq<char>, Seq<char>)> {
    query.map_values(|pair: (String, String)| (pair.0@, pair.1@))
}

/// The bytes that the names and values of the query pairs hold in UTF-8.
pub open spec fn query_bytes(query: Seq<(Seq<char>, Seq<char>)>) -> nat
    decreases query.len(),
{
    if query.len() == 0 {
        0
    } else {
        query_bytes(query.drop_last()) + encode_utf8(query.last().0).len() + encode_utf8(
            query.last().1,
        ).len()
    }
}

/// The bytes that a base and its query pairs hold together.
pub open spec fn request_bytes(base: Seq<char>, query: Seq<(Seq<char>, Seq<char>)>) -> nat {
    encode_utf8(base).len() + query_bytes(query)
}

/// The URL that the `url` crate makes of a base and query pairs, `None` where
/// it rejects the base. Uninterpreted: URL syntax is not modelled here.
pub uninterp spec fn url_with_query(
    base: Seq<char>,
    query: Seq<(Seq<char>, Seq<char>)>,
) -> Option<Seq<char>>;

/// The URL of a request with this base and these query pairs: what the `url`
/// crate makes of them, unless they are longer than [`MAX_REQUEST_BYTES`].
pub open spec fn planned_url(base: Seq<char>, query: Seq<(Seq<char>, Seq<char>)>) -> Option<
    Seq<char>,
> {
    if request_bytes(base, query) <= MAX_REQUEST_BYTES {
        url_with_query(base, query)
    } else {
        None
    }
}

/// The request with this method, base, query pairs and body, if it has a URL.
pub open spec fn planned(
    method: Method,
    base: Seq<char>,
    query: Seq<(Seq<char>, Seq<char>)>,
    body: BodyModel,
) -> Option<RequestModel> {
    match planned_url(base, query) {
        Some(url) => Some(RequestModel { method, url, body }),
        None => None,
    }
}

/// Trusted: `url::Url::parse_with_params`, its result turned into text. The
/// contract claims only that the outcome is a function of the base and the
/// pairs, and gives it a name. The length bound keeps the call away from the
/// crate's 32-bit offsets into the URL text, which it checks by panicking
/// when a query is appended.
#[verifier::external_body]
fn parse_with_params(base: &str, query: &Vec<(String, String)>) -> (parsed: Result<
    String,
    url::ParseError,
>)
    requires
        request_bytes(base@, query_view(query@)) <= MAX_REQUEST_BYTES,
    ensures
        match parsed {
            Ok(text) => url_with_query(base@, query_view(query@)) == Some(text@),
            Err(_) => url_with_query(base@, query_view(query@)) is None,
        },
{
    match url::Url::parse_with_params(base, query) {
        Ok(parsed) => Ok(String::from(parsed)),
        Err(error) => Err(error),
    }
}

/// Query pairs never hold fewer bytes than any of their prefixes.
pub proof fn lemma_query_bytes_grow(query: Seq<(Seq<char>, Seq<char>)>, k: int)
    requires
        0 <= k <= query.len(),
    ensures
        query_bytes(query.take(k)) <= query_bytes(query),
    decreases query.len(),
{
    if k == query.len() {
        assert(query.take(k) =~= query);
    } else {
        lemma_query_bytes_grow(query.drop_last(), k);
        assert(query.drop_last().take(k) =~= query.take(k));
    }
}

/// Whether the base and the query pairs fit [`MAX_REQUEST_BYTES`].
pub fn fits(base: &str, query: &Vec<(String, String)>) -> (ok: bool)
    ensures
        ok == (request_bytes(base@, query_view(query@)) <= MAX_REQUEST_BYTES),
{
    let ghost pairs = query_view(query@);
    let base_len: usize = base.as_bytes().len();
    if base_len > MAX_REQUEST_BYTES {
        return false;
    }
    let mut used: usize = base_len;
    let mut i: usize = 0;
    assert(pairs.take(0) =~= Seq::empty());
    while i < query.len()
        invariant
            i <= query@.len(),
            pairs == query_view(query@),
            used == request_bytes(base@, pairs.take(i as int)),
            used <= MAX_REQUEST_BYTES,
        decreases query@.len() - i,
    {
        let name_len: usize = query[i].0.as_str().as_bytes().len();
        let value_len: usize = query[i].1.as_str().as_bytes().len();
        proof {
            let grown = pairs.take(i + 1);
            assert(grown.drop_last() =~= pairs.take(i as int));
            assert(grown.last() == (query@[i as int].0@, query@[i as int].1@));
            lemma_query_bytes_grow(pairs, i + 1);
        }
        if name_len > MAX_REQUEST_BYTES - used {
            return false;
        }
        used = used + name_len;
        if value_len > MAX_REQUEST_BYTES - used {
            return false;
        }
        used = used + value_len;
        i = i + 1;
    }
    assert(pairs.take(i as int) =~= pairs);
    true
}

/// What a parse amounts to: the URL text, or [`Error::InvalidUrl`].
pub fn url_or_invalid(parsed: Result<String, url::ParseError>) -> (result: Result<String, Error>)
    ensures
        match parsed {
            Ok(text) => result matches Ok(url) && url@ == text@,
            Err(_) => result == Err::<String, Error>(Error::InvalidUrl),
        },
{
    match parsed {
        Ok(text) => Ok(text),
        Err(_) => Err(Error::InvalidUrl),
    }
}

/// The URL for a base and query pairs.
pub fn build_url(base: &str, query: &Vec<(String, String)>) -> (result: Result<String, Error>)
    ensures
        match planned_url(base@, query_view(query@)) {
            Some(url) => result matches Ok(text) && text@ == url,
            None => result == Err::<String, Error>(Error::InvalidUrl),
        },
{
    if fits(base, query) {
        url_or_invalid(parse_with_params(base, query))
    } else {
        Err(Error::InvalidUrl)
    }
}

/// The request with this method, base, query pairs and body.
pub fn plan(method: Method, base: &str, query: &Vec<(String, String)>, body: Body) -> (result:
    Result<Request, Error>)
    ensures
        match planned(method, base@, query_view(query@), body@) {
            Some(model) => result matches Ok(request) && request@ == model,
            None => result == Err::<Request, Error>(Error::InvalidUrl),
        },
{
    match build_url(base, query) {
        Ok(url) => Ok(Request { method, url, body }),
        Err(_) => Err(Error::InvalidUrl),
    }
}

/// One query pair.
pub fn pair(name: &str, value: &str) -> (made: (String, String))
    ensures
        made.0@ == name@,
        made.1@ == value@,
{
    (String::from_str(name), String::from_str(value))
}

/// `items` joined by `separator`.
pub open spec fn joined(items: Seq<Seq<char>>, separator: Seq<char>) -> Seq<char>
    decreases items.len(),
{
    if items.len() == 0 {
        Seq::empty()
    } else if items.len() == 1 {
        items[0]
    } else {
        joined(items.drop_last(), separator) + separator + items.last()
    }
}

/// The first `limit` items, or all of them where there are fewer.
pub open spec fn capped<A>(items: Seq<A>, limit: int) -> Seq<A> {
    if items.len() <= limit {
        items
    } else {
        items.take(limit)
    }
}

/// The texts of `items` as mathematical values.
pub open spec fn texts(items: Seq<String>) -> Seq<Seq<char>> {
    items.map_values(|item: String| item@)
}

/// Joins the first `limit` of `items` with `separator`.
pub fn join_capped(items: &Vec<String>, separator: &str, limit: usize) -> (text: String)
    ensures
        text@ == joined(capped(texts(items@), limit as int), separator@),
{
    let count: usize = if items.len() <= limit {
        items.len()
    } else {
        limit
    };
    let ghost all = capped(texts(items@), limit as int);
    assert(all =~= texts(items@).take(count as int));
    let mut text = String::new();
    let mut i: usize = 0;
    assert(all.take(0) =~= Seq::empty());
    while i < count
        invariant
            i <= count <= items@.len(),
            all == texts(items@).take(count as int),
            text@ == joined(all.take(i as int), separator@),
        decreases count - i,
    {
        proof {
            let grown = all.take(i + 1);
            assert(grown.drop_last() =~= all.take(i as int));
            assert(grown.last() == items@[i as int]@);
            if i == 0 {
                assert(grown[0] == items@[0]@);
                assert(Seq::<char>::empty() + items@[0]@ =~= items@[0]@);
            }
        }
        if i > 0 {
            text.append(separator);
        }
        text.append(items[i].as_str());
        i = i + 1;
    }
    assert(all.take(count as int) =~= all);
    text
}

} // verus!
