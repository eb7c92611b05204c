use vstd::prelude::*;
use crate::model::{ClientError, Series};
use crate::text::{decimal, push_decimal};

verus! {

/// Address of the service; every path is appended to it.
pub const BASE_PATH: &'static str = "https://api.thetvdb.com";

#[verifier::external_type_specification]
#[verifier::external_body]
pub struct ExUrl(url::Url);

#[verifier::external_type_specification]
#[verifier::external_body]
pub struct ExParseError(url::ParseError);

/// Whether `url::Url::parse` accepts a text as an absolute URL.
pub uninterp spec fn url_accepts(s: Seq<char>) -> bool;

/// Relies on `url::Url::parse`, which parses with default options and no
/// other input: whether it succeeds depends on the text alone.
#[verifier::external_body]
fn parse_url(s: &str) -> (r: Result<url::Url, url::ParseError>)
    ensures
        r is Ok <==> url_accepts(s@),
{
    url::Url::parse(s)
}

/// Parses a request address; a text that is not a URL is an `InvalidUrl`.
pub fn parse_target(address: &str) -> (r: Result<url::Url, ClientError>)
    ensures
        r is Ok <==> url_accepts(address@),
        r is Err ==> r == Err::<url::Url, ClientError>(ClientError::InvalidUrl),
{
    match parse_url(address) {
        Ok(u) => Ok(u),
        Err(_) => Err(ClientError::InvalidUrl),
    }
}

/// The address of the login.
pub fn login_url() -> (r: String)
    ensures
        r@ == endpoint("/login"@),
{
    endpoint_url("/login")
}

/// An authenticated session: the bearer token handed out by the login.
pub struct Session {
    token: String,
}

impl View for Session {
    type V = Seq<char>;

    /// The session's token.
    closed spec fn view(&self) -> Seq<char> {
        self.token@
    }
}

/// An outbound request: absolute address, query parameters in order, the
/// optional `Accept-Language` value and the `Authorization` value.
pub struct Request {
    pub url: String,
    pub query: Vec<(String, String)>,
    pub accept_language: Option<String>,
    pub authorization: String,
}

/// The mathematical value of a [`Request`].
pub struct RequestView {
    pub url: Seq<char>,
    pub query: Seq<(Seq<char>, Seq<char>)>,
    pub accept_language: Option<Seq<char>>,
    pub authorization: Seq<char>,
}

impl View for Request {
    type V = RequestView;

    open spec fn view(&self) -> RequestView {
        RequestView {
            url: self.url@,
            query: self.query@.map_values(|p: (String, String)| (p.0@, p.1@)),
            accept_language: opt_string_view(self.accept_language),
            authorization: self.authorization@,
        }
    }
}

/// The view of an optional owned string.
pub open spec fn opt_string_view(o: Option<String>) -> Option<Seq<char>> {
    match o {
        Some(s) => Some(s@),
        None => None,
    }
}

/// The view of an optional string slice.
pub open spec fn opt_str_view(o: Option<&str>) -> Option<Seq<char>> {
    match o {
        Some(s) => Some(s@),
        None => None,
    }
}

/// The value of the `Authorization` header for a token.
pub open spec fn bearer(token: Seq<char>) -> Seq<char> {
    "Bearer "@ + token
}

/// The absolute address of a path of the service.
pub open spec fn endpoint(path: Seq<char>) -> Seq<char> {
    BASE_PATH@ + path
}

/// A query parameter that is present only when its value is.
pub open spec fn opt_param(key: Seq<char>, value: Option<Seq<char>>) -> Seq<(Seq<char>, Seq<char>)> {
    match value {
        Some(v) => seq![(key, v)],
        None => seq![],
    }
}

/// The query of a series search: each given filter, in this order.
pub open spec fn search_query(
    name: Option<Seq<char>>,
    imdb_id: Option<Seq<char>>,
    zap2it_id: Option<Seq<char>>,
    slug: Option<Seq<char>>,
) -> Seq<(Seq<char>, Seq<char>)> {
    opt_param("name"@, name) + opt_param("imdbId"@, imdb_id) + opt_param("zap2itId"@, zap2it_id)
        + opt_param("slug"@, slug)
}

/// The path of a series lookup.
pub open spec fn series_path(id: u64) -> Seq<char> {
    "/series/"@ + decimal(id as nat)
}

/// The path of a series' episode pages.
pub open spec fn episodes_path(id: u64) -> Seq<char> {
    series_path(id) + "/episodes"@
}

/// A series search for a session with `token`.
pub open spec fn search_request_view(
    token: Seq<char>,
    name: Option<Seq<char>>,
    imdb_id: Option<Seq<char>>,
    zap2it_id: Option<Seq<char>>,
    slug: Option<Seq<char>>,
    accept_language: Option<Seq<char>>,
) -> RequestView {
    RequestView {
        url: endpoint("/search/series"@),
        query: search_query(name, imdb_id, zap2it_id, slug),
        accept_language,
        authorization: bearer(token),
    }
}

/// The lookup of a series for a session with `token`.
pub open spec fn series_request_view(
    token: Seq<char>,
    series_id: u64,
    accept_language: Option<Seq<char>>,
) -> RequestView {
    RequestView {
        url: endpoint(series_path(series_id)),
        query: seq![],
        accept_language,
        authorization: bearer(token),
    }
}

/// Whether an optional `Accept-Language` value may be sent.
pub open spec fn language_ok(accept_language: Option<Seq<char>>) -> bool {
    match accept_language {
        Some(l) => header_value_ok(l),
        None => true,
    }
}

/// The fetch of one page of a series' episodes, for a session with `token`.
pub open spec fn episodes_request_view(token: Seq<char>, series_id: u64, page: u64) -> RequestView {
    RequestView {
        url: endpoint(episodes_path(series_id)),
        query: seq![("page"@, decimal(page as nat))],
        accept_language: None,
        authorization: bearer(token),
    }
}

/// The outcome of a response, given its status and, for a 200, the decoded
/// body if it had the expected shape.
pub open spec fn classified<T>(status: u16, body: Option<T>) -> Result<T, ClientError> {
    if status != 200 {
        Err(ClientError::HTTPError(status))
    } else {
        match body {
            Some(b) => Ok(b),
            None => Err(ClientError::DecodeError),
        }
    }
}

/// The canonical reason phrase of an HTTP status code, where it has one.
pub uninterp spec fn reason_of(code: u16) -> Option<Seq<char>>;

/// Relies on `reqwest::StatusCode::from_u16` and `StatusCode::canonical_reason`:
/// the reason phrase of a code depends on the code alone.
#[verifier::external_body]
fn canonical_reason(code: u16) -> (r: Option<String>)
    ensures
        opt_string_view(r) == reason_of(code),
{
    reqwest::StatusCode::from_u16(code).ok().and_then(|c| c.canonical_reason()).map(
        |t| t.to_string(),
    )
}

/// `"Response Code {code} {reason}"`, with `<unknown status code>` in place of
/// a missing reason.
pub open spec fn status_message(code: u16, reason: Option<Seq<char>>) -> Seq<char> {
    "Response Code "@ + decimal(code as nat) + " "@ + match reason {
        Some(r) => r,
        None => "<unknown status code>"@,
    }
}

/// The report of an HTTP error, given the reason phrase of its code.
pub fn format_status(code: u16, reason: Option<&str>) -> (r: String)
    ensures
        r@ == status_message(code, opt_str_view(reason)),
{
    let mut r = String::from_str("Response Code ");
    push_decimal(&mut r, code as u64);
    r.append(" ");
    match reason {
        Some(t) => r.append(t),
        None => r.append("<unknown status code>"),
    }
    r
}

/// The text with which an error is reported.
pub open spec fn error_message(e: ClientError) -> Seq<char> {
    match e {
        ClientError::InvalidAPIKey => "Invalid API Key"@,
        ClientError::HTTPError(s) => status_message(s, reason_of(s)),
        ClientError::InvalidHeaderValue => "failed to parse header value"@,
        ClientError::DecodeError => "Malformed response body"@,
        ClientError::TransportError => "Request failed"@,
        ClientError::InvalidUrl => "Invalid request address"@,
        ClientError::TooManyPages => "Too many episode pages"@,
    }
}

impl ClientError {
    /// The text with which the error is reported.
    pub fn message(&self) -> (r: String)
        ensures
            r@ == error_message(*self),
    {
        match self {
            ClientError::InvalidAPIKey => String::from_str("Invalid API Key"),
            ClientError::HTTPError(s) => {
                let reason = canonical_reason(*s);
                match &reason {
                    Some(t) => format_status(*s, Some(t.as_str())),
                    None => format_status(*s, None),
                }
            },
            ClientError::InvalidHeaderValue => String::from_str("failed to parse header value"),
            ClientError::DecodeError => String::from_str("Malformed response body"),
            ClientError::TransportError => String::from_str("Request failed"),
            ClientError::InvalidUrl => String::from_str("Invalid request address"),
            ClientError::TooManyPages => String::from_str("Too many episode pages"),
        }
    }
}

/// Classifies a response: a status other than 200 is an `HTTPError` with that
/// status; a 200 whose body did not decode (`body` is `None`) is a
/// `DecodeError`; otherwise the decoded body.
pub fn classify<T>(status: u16, body: Option<T>) -> (r: Result<T, ClientError>)
    ensures
        r == classified(status, body),
{
    if status != 200 {
        Err(ClientError::HTTPError(status))
    } else {
        match body {
            Some(b) => Ok(b),
            None => Err(ClientError::DecodeError),
        }
    }
}

/// Whether a character may stand in an HTTP header value: a tab, or any
/// character from space upward except DEL. Characters beyond ASCII encode to
/// bytes from 128 upward, all of which are allowed.
pub open spec fn header_char_ok(c: char) -> bool {
    c == '\t' || (c as int >= 32 && c as int != 127)
}

/// Whether a text may be sent as an HTTP header value.
pub open spec fn header_value_ok(s: Seq<char>) -> bool {
    forall|i: int| 0 <= i < s.len() ==> header_char_ok(#[trigger] s[i])
}

/// Whether `s` may be sent as an HTTP header value.
pub fn is_header_value(s: &str) -> (r: bool)
    ensures
        r == header_value_ok(s@),
{
    let n = s.unicode_len();
    let mut i: usize = 0;
    while i < n
        invariant
            i <= n,
            n == s@.len(),
            forall|j: int| 0 <= j < i ==> header_char_ok(#[trigger] s@[j]),
        decreases n - i,
    {
        let c = s.get_char(i);
        if !(c == '\t' || (c as u32 >= 32 && c as u32 != 127)) {
            return false;
        }
        i += 1;
    }
    true
}

/// The outcome of a login, as the session token it yields: a status other
/// than 200 refuses the key; a 200 needs a decoded token that makes a valid
/// `Authorization` value.
pub open spec fn login_result(status: u16, token: Option<Seq<char>>) -> Result<Seq<char>, ClientError> {
    if status != 200 {
        Err(ClientError::InvalidAPIKey)
    } else {
        match token {
            None => Err(ClientError::DecodeError),
            Some(t) => if header_value_ok(bearer(t)) {
                Ok(t)
            } else {
                Err(ClientError::InvalidHeaderValue)
            },
        }
    }
}

/// Decides a login from its status and, for a 200, the token field of the
/// body if it decoded. Any status but 200 means the key was refused.
pub fn authenticate(status: u16, token: Option<String>) -> (r: Result<Session, ClientError>)
    ensures
        match r {
            Ok(s) => login_result(status, opt_string_view(token)) == Ok::<
                Seq<char>,
                ClientError,
            >(s@),
            Err(e) => login_result(status, opt_string_view(token)) == Err::<
                Seq<char>,
                ClientError,
            >(e),
        },
{
    if status != 200 {
        return Err(ClientError::InvalidAPIKey);
    }
    match token {
        Some(t) => {
            let session = Session { token: t };
            let value = session.authorization();
            if is_header_value(value.as_str()) {
                Ok(session)
            } else {
                Err(ClientError::InvalidHeaderValue)
            }
        },
        None => Err(ClientError::DecodeError),
    }
}

/// A login answered with 200 and a token that makes a valid `Authorization`
/// value yields a session with exactly that token, and every request built
/// from it carries `Bearer {token}`; a login answered otherwise than 200
/// yields no session, whatever its body.
pub proof fn lemma_login_token(
    status: u16,
    token: Seq<char>,
    body: Option<Seq<char>>,
    series_id: u64,
    page: u64,
    language: Option<Seq<char>>,
)
    ensures
        status == 200 && header_value_ok(bearer(token)) ==> login_result(status, Some(token))
            == Ok::<Seq<char>, ClientError>(token),
        status != 200 ==> login_result(status, body) == Err::<Seq<char>, ClientError>(
            ClientError::InvalidAPIKey,
        ),
        episodes_request_view(token, series_id, page).authorization == bearer(token),
        series_request_view(token, series_id, language).authorization == bearer(token),
        search_request_view(token, body, None, None, None, language).authorization == bearer(
            token,
        ),
{
}

/// Whether a search needs the caller to choose: more than one match.
pub fn needs_choice(results: &Vec<Series>) -> (r: bool)
    ensures
        r == (results@.len() > 1),
{
    results.len() > 1
}

fn language_allowed(accept_language: Option<&str>) -> (r: bool)
    ensures
        r == language_ok(opt_str_view(accept_language)),
{
    match accept_language {
        Some(l) => is_header_value(l),
        None => true,
    }
}

fn owned(o: Option<&str>) -> (r: Option<String>)
    ensures
        opt_string_view(r) == opt_str_view(o),
{
    match o {
        Some(s) => Some(String::from_str(s)),
        None => None,
    }
}

fn push_param(q: &mut Vec<(String, String)>, key: &str, value: Option<&str>)
    ensures
        final(q)@.map_values(|p: (String, String)| (p.0@, p.1@)) == old(q)@.map_values(
            |p: (String, String)| (p.0@, p.1@),
        ) + opt_param(key@, opt_str_view(value)),
{
    if let Some(v) = value {
        q.push((String::from_str(key), String::from_str(v)));
    }
    assert(final(q)@.map_values(|p: (String, String)| (p.0@, p.1@)) =~= old(q)@.map_values(
        |p: (String, String)| (p.0@, p.1@),
    ) + opt_param(key@, opt_str_view(value)));
}

fn endpoint_url(path: &str) -> (r: String)
    ensures
        r@ == endpoint(path@),
{
    let mut r = String::from_str(BASE_PATH);
    r.append(path);
    r
}

fn series_url(id: u64) -> (r: String)
    ensures
        r@ == endpoint(series_path(id)),
{
    let mut r = endpoint_url("/series/");
    push_decimal(&mut r, id);
    assert(r@ =~= endpoint(series_path(id)));
    r
}

impl Session {
    /// The session's token.
    pub fn token(&self) -> (r: &String)
        ensures
            r@ == self@,
    {
        &self.token
    }

    /// The `Authorization` value that every request of the session carries.
    pub fn authorization(&self) -> (r: String)
        ensures
            r@ == bearer(self@),
    {
        let mut r = String::from_str("Bearer ");
        r.append(self.token.as_str());
        r
    }

    /// A series search; only the given filters become query parameters. An
    /// `Accept-Language` value that is no valid header value is refused.
    pub fn search_request(
        &self,
        name: Option<&str>,
        imdb_id: Option<&str>,
        zap2it_id: Option<&str>,
        slug: Option<&str>,
        accept_language: Option<&str>,
    ) -> (r: Result<Request, ClientError>)
        ensures
            r is Ok <==> language_ok(opt_str_view(accept_language)),
            match r {
                Ok(q) => q@ == search_request_view(
                    self@,
                    opt_str_view(name),
                    opt_str_view(imdb_id),
                    opt_str_view(zap2it_id),
                    opt_str_view(slug),
                    opt_str_view(accept_language),
                ),
                Err(e) => e == ClientError::InvalidHeaderValue,
            },
    {
        if !language_allowed(accept_language) {
            return Err(ClientError::InvalidHeaderValue);
        }
        let mut query: Vec<(String, String)> = Vec::new();
        assert(query@.map_values(|p: (String, String)| (p.0@, p.1@)) =~= seq![]);
        push_param(&mut query, "name", name);
        push_param(&mut query, "imdbId", imdb_id);
        push_param(&mut query, "zap2itId", zap2it_id);
        push_param(&mut query, "slug", slug);
        let r = Request {
            url: endpoint_url("/search/series"),
            query,
            accept_language: owned(accept_language),
            authorization: self.authorization(),
        };
        assert(r@.query =~= search_query(
            opt_str_view(name),
            opt_str_view(imdb_id),
            opt_str_view(zap2it_id),
            opt_str_view(slug),
        ));
        Ok(r)
    }

    /// The lookup of one series by its identifier. An `Accept-Language` value
    /// that is no valid header value is refused.
    pub fn series_request(&self, series_id: u64, accept_language: Option<&str>) -> (r: Result<
        Request,
        ClientError,
    >)
        ensures
            r is Ok <==> language_ok(opt_str_view(accept_language)),
            match r {
                Ok(q) => q@ == series_request_view(
                    self@,
                    series_id,
                    opt_str_view(accept_language),
                ),
                Err(e) => e == ClientError::InvalidHeaderValue,
            },
    {
        if !language_allowed(accept_language) {
            return Err(ClientError::InvalidHeaderValue);
        }
        let query: Vec<(String, String)> = Vec::new();
        let r = Request {
            url: series_url(series_id),
            query,
            accept_language: owned(accept_language),
            authorization: self.authorization(),
        };
        assert(r@.query =~= seq![]);
        Ok(r)
    }

    /// The fetch of one page of a series' episodes.
    pub fn episodes_request(&self, series_id: u64, page: u64) -> (r: Request)
        ensures
            r@ == episodes_request_view(self@, series_id, page),
    {
        let mut url = series_url(series_id);
        url.append("/episodes");
        let mut number = String::new();
        push_decimal(&mut number, page);
        let mut query: Vec<(String, String)> = Vec::new();
        query.push((String::from_str("page"), number));
        let r = Request { url, query, accept_language: None, authorization: self.authorization() };
        assert(r@.url =~= endpoint(episodes_path(series_id)));
        assert(r@.query =~= seq![("page"@, decimal(page as nat))]);
        r
    }
}

/// The series a search settles on by itself: the only match when there is
/// exactly one, else none (see [`needs_choice`] for when the caller chooses).
pub fn resolve_search(results: &Vec<Series>) -> (r: Option<u64>)
    ensures
        r is Some <==> results@.len() == 1,
        r is Some ==> r->Some_0 == results@[0].id,
{
    if results.len() == 1 {
        Some(results[0].id)
    } else {
        None
    }
}

} // verus!
