//! Requests to the catalog's web API, and what is said of those that fail.

use vstd::prelude::*;
use vstd::string::*;

verus! {

/// The catalog's web API. It needs no key apart from the `client_id` query parameter.
pub const API_V2: &'static str = "https://api-v2.soundcloud.com";

/// The web player, whose pages carry the `client_id`.
pub const WEB_HOST: &'static str = "https://soundcloud.com";

/// What a request is for.
#[derive(Clone, Copy)]
pub enum Endpoint {
    Homepage,
    Search,
    Lookup,
    StreamResolve,
}

/// One query parameter, not yet percent-encoded.
pub struct QueryParam {
    pub name: String,
    pub value: String,
}

/// A GET request for a JSON document.
pub struct ApiRequest {
    pub endpoint: Endpoint,
    pub url: String,
    /// Appended to the URL in this order.
    pub query: Vec<QueryParam>,
}

/// What an [`ApiRequest`] holds, with texts as sequences of characters.
#[verifier::ext_equal]
pub struct RequestView {
    pub endpoint: Endpoint,
    pub url: Seq<char>,
    pub query: Seq<(Seq<char>, Seq<char>)>,
}

impl View for ApiRequest {
    type V = RequestView;

    open spec fn view(&self) -> RequestView {
        RequestView {
            endpoint: self.endpoint,
            url: self.url@,
            query: self.query@.map_values(|p: QueryParam| (p.name@, p.value@)),
        }
    }
}

/// The request that searches for tracks.
pub open spec fn search_request(query: Seq<char>, client_id: Seq<char>) -> RequestView {
    RequestView {
        endpoint: Endpoint::Search,
        url: API_V2@ + "/search/tracks"@,
        query: seq![("q"@, query), ("client_id"@, client_id), ("limit"@, "50"@)],
    }
}

/// The request that looks a track up.
pub open spec fn lookup_request(track_id: Seq<char>, client_id: Seq<char>) -> RequestView {
    RequestView {
        endpoint: Endpoint::Lookup,
        url: API_V2@ + "/tracks/"@ + track_id,
        query: seq![("client_id"@, client_id)],
    }
}

/// The request that asks for the file behind a transcoding.
pub open spec fn stream_request(
    url: Seq<char>,
    authorization: Option<Seq<char>>,
    client_id: Seq<char>,
) -> RequestView {
    RequestView {
        endpoint: Endpoint::StreamResolve,
        url,
        query: match authorization {
            Some(auth) => seq![("client_id"@, client_id), ("track_authorization"@, auth)],
            None => seq![("client_id"@, client_id)],
        },
    }
}

/// Makes a query parameter.
fn param(name: &str, value: &str) -> (r: QueryParam)
    ensures
        r.name@ == name@,
        r.value@ == value@,
{
    QueryParam { name: name.to_string(), value: value.to_string() }
}

/// Makes the request that searches for tracks.
pub fn api_search(query: &str, cid: &str) -> (r: ApiRequest)
    ensures
        r@ == search_request(query@, cid@),
{
    let mut url = API_V2.to_string();
    url.append("/search/tracks");
    let r = ApiRequest {
        endpoint: Endpoint::Search,
        url,
        query: vec![param("q", query), param("client_id", cid), param("limit", "50")],
    };
    assert(r@ =~= search_request(query@, cid@));
    r
}

/// Makes the request that looks a track up.
pub fn lookup_track(id: &str, cid: &str) -> (r: ApiRequest)
    ensures
        r@ == lookup_request(id@, cid@),
{
    let mut url = API_V2.to_string();
    url.append("/tracks/");
    url.append(id);
    let r = ApiRequest {
        endpoint: Endpoint::Lookup,
        url,
        query: vec![param("client_id", cid)],
    };
    assert(r@ =~= lookup_request(id@, cid@));
    r
}

/// The text of an optional reference.
pub open spec fn optional_str(s: Option<&str>) -> Option<Seq<char>> {
    match s {
        Some(s) => Some(s@),
        None => None,
    }
}

/// Makes the request that asks for the file behind a transcoding.
pub fn stream_lookup(url: &str, authorization: Option<&str>, cid: &str) -> (r: ApiRequest)
    ensures
        r@ == stream_request(url@, optional_str(authorization), cid@),
{
    let mut query: Vec<QueryParam> = vec![param("client_id", cid)];
    if let Some(auth) = authorization {
        query.push(param("track_authorization", auth));
    }
    let r = ApiRequest { endpoint: Endpoint::StreamResolve, url: url.to_string(), query };
    assert(r@ =~= stream_request(url@, optional_str(authorization), cid@));
    r
}

/// Where a request failed.
#[derive(Clone, Copy)]
pub enum Stage {
    /// It was not sent, or the answer's status is an error.
    Http,
    /// The answer's text did not arrive.
    Body,
    /// The answer is not JSON.
    Json,
}

/// How a message names what a request is for.
pub open spec fn endpoint_name(endpoint: Endpoint) -> Seq<char> {
    match endpoint {
        Endpoint::Homepage => "homepage"@,
        Endpoint::Search => "search"@,
        Endpoint::Lookup => "lookup"@,
        Endpoint::StreamResolve => "stream resolve"@,
    }
}

/// How a message names where a request failed.
pub open spec fn stage_name(stage: Stage) -> Seq<char> {
    match stage {
        Stage::Http => "HTTP"@,
        Stage::Body => "body"@,
        Stage::Json => "JSON"@,
    }
}

/// Says what failed, where and why.
pub fn failure_message(endpoint: Endpoint, stage: Stage, detail: &str) -> (r: String)
    ensures
        r@ == "SoundCloud "@ + endpoint_name(endpoint) + " "@ + stage_name(stage) + ": "@ + detail@,
{
    let mut r = "SoundCloud ".to_string();
    r.append(
        match endpoint {
            Endpoint::Homepage => "homepage",
            Endpoint::Search => "search",
            Endpoint::Lookup => "lookup",
            Endpoint::StreamResolve => "stream resolve",
        },
    );
    r.append(" ");
    r.append(
        match stage {
            Stage::Http => "HTTP",
            Stage::Body => "body",
            Stage::Json => "JSON",
        },
    );
    r.append(": ");
    r.append(detail);
    r
}

/// A request that failed.
pub struct Failure {
    /// The status of the answer, where that is what failed.
    pub status: Option<u16>,
    pub message: String,
}

impl Failure {
    /// The answer blames the request (a 4xx status), as it does where the `client_id` is
    /// stale.
    pub open spec fn blames_request(self) -> bool {
        self.status matches Some(s) && 400 <= s < 500
    }

    /// Whether the answer blames the request.
    pub fn is_client_error(&self) -> (r: bool)
        ensures
            r == self.blames_request(),
    {
        match self.status {
            Some(s) => 400 <= s && s < 500,
            None => false,
        }
    }
}

/// A lookup goes to `/tracks/` and the id of the API, and carries the `client_id` alone.
pub proof fn law_lookup_names_the_track(track_id: Seq<char>, client_id: Seq<char>)
    ensures
        ({
            let r = lookup_request(track_id, client_id);
            &&& r.endpoint is Lookup
            &&& r.url == "https://api-v2.soundcloud.com/tracks/"@ + track_id
            &&& r.query.len() == 1
            &&& r.query[0] == ("client_id"@, client_id)
        }),
{
    reveal_strlit("https://api-v2.soundcloud.com");
    reveal_strlit("/tracks/");
    reveal_strlit("https://api-v2.soundcloud.com/tracks/");
    assert(API_V2@ + "/tracks/"@ =~= "https://api-v2.soundcloud.com/tracks/"@);
}

/// A search goes to `/search/tracks` of the API, and carries the whole query, the `client_id`
/// and the number of results that it wants.
pub proof fn law_search_names_the_query(query: Seq<char>, client_id: Seq<char>)
    ensures
        ({
            let r = search_request(query, client_id);
            &&& r.endpoint is Search
            &&& r.url == "https://api-v2.soundcloud.com/search/tracks"@
            &&& r.query.len() == 3
            &&& r.query[0] == ("q"@, query)
            &&& r.query[1] == ("client_id"@, client_id)
            &&& r.query[2] == ("limit"@, "50"@)
        }),
{
    reveal_strlit("https://api-v2.soundcloud.com");
    reveal_strlit("/search/tracks");
    reveal_strlit("https://api-v2.soundcloud.com/search/tracks");
    assert(API_V2@ + "/search/tracks"@ =~= "https://api-v2.soundcloud.com/search/tracks"@);
}

/// The request for a file goes to the URL of the transcoding as it is. It carries the
/// `client_id`, and then the track's authorization where the track has one.
pub proof fn law_stream_request_goes_to_the_transcoding(
    url: Seq<char>,
    auth: Seq<char>,
    client_id: Seq<char>,
)
    ensures
        ({
            let open = stream_request(url, None, client_id);
            let locked = stream_request(url, Some(auth), client_id);
            &&& open.endpoint is StreamResolve && locked.endpoint is StreamResolve
            &&& open.url == url && locked.url == url
            &&& open.query.len() == 1 && open.query[0] == ("client_id"@, client_id)
            &&& locked.query.len() == 2 && locked.query[0] == ("client_id"@, client_id)
            &&& locked.query[1] == ("track_authorization"@, auth)
        }),
{
}

/// The view of a request has the request's own texts, parameter by parameter.
pub proof fn law_request_view_is_the_request(r: ApiRequest, s: &str)
    ensures
        r@.endpoint == r.endpoint,
        r@.url == r.url@,
        r@.query.len() == r.query@.len(),
        forall|i: int|
            0 <= i < r.query@.len() ==> (#[trigger] r@.query[i]).0 == r.query@[i].name@
                && r@.query[i].1 == r.query@[i].value@,
        optional_str(Some(s)) == Some(s@),
        optional_str(None) is None,
{
}

/// Messages name each kind of request and each place of failure in a word of its own.
pub proof fn law_messages_name_what_failed()
    ensures
        endpoint_name(Endpoint::Homepage) == "homepage"@,
        endpoint_name(Endpoint::Search) == "search"@,
        endpoint_name(Endpoint::Lookup) == "lookup"@,
        endpoint_name(Endpoint::StreamResolve) == "stream resolve"@,
        stage_name(Stage::Http) == "HTTP"@,
        stage_name(Stage::Body) == "body"@,
        stage_name(Stage::Json) == "JSON"@,
{
}

/// An answer blames the request exactly where its status is a three-digit number that starts
/// with a four.
pub proof fn law_client_errors_are_the_four_hundreds(failure: Failure, status: u16)
    ensures
        failure.status is None ==> !failure.blames_request(),
        failure.status == Some(status) ==> (failure.blames_request() <==> status / 100 == 4),
{
}

} // verus!
