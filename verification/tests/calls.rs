use media_source::json::{Json, Member};
use media_source::request::{
    api_search, failure_message, lookup_track, stream_lookup, ApiRequest, Endpoint, Failure, Stage,
    API_V2, WEB_HOST,
};
use media_source::resolve::{resolve_stream, stream_target, stream_url, ResolveStep};
use media_source::search::{search_tracks, SearchStep};
use media_source::track::Track;

fn text(s: &str) -> Json {
    Json::Text(s.to_string())
}

fn object(entries: Vec<(&str, Json)>) -> Json {
    Json::Object(
        entries
            .into_iter()
            .map(|(name, value)| Member { name: name.to_string(), value })
            .collect(),
    )
}

fn transcoding(protocol: &str, url: Json) -> Json {
    object(vec![("url", url), ("format", object(vec![("protocol", text(protocol))]))])
}

fn song(list: Vec<Json>) -> Json {
    object(vec![
        ("id", Json::Unsigned(5)),
        ("kind", text("track")),
        ("title", text("Song")),
        ("media", object(vec![("transcodings", Json::Array(list))])),
        ("track_authorization", text("key")),
    ])
}

fn flat(request: &ApiRequest) -> String {
    let mut out = request.url.clone();
    for p in &request.query {
        out.push_str(&format!(" {}={}", p.name, p.value));
    }
    out
}

fn failure(status: Option<u16>, message: &str) -> Failure {
    Failure { status, message: message.to_string() }
}

fn run_search(
    query: &str,
    ids: Vec<Result<&str, &str>>,
    replies: Vec<Result<Json, Failure>>,
) -> (Vec<String>, Result<Vec<Track>, String>) {
    let mut log = Vec::new();
    let mut ids = ids.into_iter();
    let mut replies = replies.into_iter();
    let mut step = search_tracks(query);
    loop {
        match step {
            SearchStep::ClientId { force, call } => {
                log.push(format!("id force={force}"));
                let id = ids.next().expect("an id");
                step = call.on_client_id(id.map(str::to_string).map_err(str::to_string));
            }
            SearchStep::Send { request, call } => {
                log.push(flat(&request));
                step = call.on_reply(replies.next().expect("a reply"));
            }
            SearchStep::Done(result) => return (log, result),
        }
    }
}

fn run_resolve(
    track_id: &str,
    ids: Vec<Result<&str, &str>>,
    replies: Vec<Result<Json, Failure>>,
) -> (Vec<String>, Result<String, String>) {
    let mut log = Vec::new();
    let mut ids = ids.into_iter();
    let mut replies = replies.into_iter();
    let mut step = resolve_stream(track_id);
    loop {
        match step {
            ResolveStep::ClientId { force, call } => {
                log.push(format!("id force={force}"));
                let id = ids.next().expect("an id");
                step = call.on_client_id(id.map(str::to_string).map_err(str::to_string));
            }
            ResolveStep::Send { request, call } => {
                log.push(flat(&request));
                step = call.on_reply(replies.next().expect("a reply"));
            }
            ResolveStep::Done(result) => return (log, result),
        }
    }
}

#[test]
fn request_urls_and_parameters() {
    assert_eq!(API_V2, "https://api-v2.soundcloud.com");
    assert_eq!(WEB_HOST, "https://soundcloud.com");
    assert_eq!(
        flat(&api_search("a b", "cid")),
        "https://api-v2.soundcloud.com/search/tracks q=a b client_id=cid limit=50"
    );
    assert_eq!(
        flat(&lookup_track("42", "cid")),
        "https://api-v2.soundcloud.com/tracks/42 client_id=cid"
    );
    assert!(matches!(api_search("q", "cid").endpoint, Endpoint::Search));
    assert!(matches!(lookup_track("42", "cid").endpoint, Endpoint::Lookup));
    assert!(matches!(stream_lookup("u", None, "cid").endpoint, Endpoint::StreamResolve));
    assert_eq!(flat(&stream_lookup("u", None, "cid")), "u client_id=cid");
    assert_eq!(
        flat(&stream_lookup("u", Some("key"), "cid")),
        "u client_id=cid track_authorization=key"
    );
}

#[test]
fn failure_messages() {
    assert_eq!(
        failure_message(Endpoint::Homepage, Stage::Http, "x"),
        "SoundCloud homepage HTTP: x"
    );
    assert_eq!(
        failure_message(Endpoint::Homepage, Stage::Body, "x"),
        "SoundCloud homepage body: x"
    );
    assert_eq!(failure_message(Endpoint::Search, Stage::Json, "x"), "SoundCloud search JSON: x");
    assert_eq!(failure_message(Endpoint::Lookup, Stage::Http, ""), "SoundCloud lookup HTTP: ");
    assert_eq!(
        failure_message(Endpoint::StreamResolve, Stage::Json, "x"),
        "SoundCloud stream resolve JSON: x"
    );
}

#[test]
fn client_errors() {
    for (status, expected) in [
        (None, false),
        (Some(399), false),
        (Some(400), true),
        (Some(401), true),
        (Some(499), true),
        (Some(500), false),
    ] {
        assert_eq!(failure(status, "x").is_client_error(), expected);
    }
}

#[test]
fn a_blank_query_asks_nobody() {
    for query in ["", " ", "\t\r\n", "\u{a0}\u{2003}\u{3000}"] {
        let (log, result) = run_search(query, vec![], vec![]);
        assert!(log.is_empty());
        assert!(result.expect("no failure").is_empty());
    }
}

#[test]
fn white_space_is_what_trim_takes_off() {
    for c in '\0'..=char::MAX {
        let query = c.to_string();
        let blank = matches!(search_tracks(&query), SearchStep::Done(_));
        assert_eq!(blank, query.trim().is_empty(), "{:?}", c);
    }
}

#[test]
fn a_search_that_is_answered() {
    let answer = object(vec![(
        "collection",
        Json::Array(vec![song(vec![transcoding("progressive", text("u"))])]),
    )]);
    let (log, result) = run_search("q", vec![Ok("one")], vec![Ok(answer)]);
    assert_eq!(
        log,
        vec![
            "id force=false",
            "https://api-v2.soundcloud.com/search/tracks q=q client_id=one limit=50",
        ]
    );
    let tracks = result.expect("no failure");
    assert_eq!(tracks.len(), 1);
    assert_eq!(tracks[0].path, "soundcloud:5");
}

#[test]
fn a_failed_search_is_tried_once_more() {
    let (log, result) = run_search(
        "q",
        vec![Ok("one"), Ok("two")],
        vec![Err(failure(None, "first")), Ok(Json::Null)],
    );
    assert_eq!(
        log,
        vec![
            "id force=false",
            "https://api-v2.soundcloud.com/search/tracks q=q client_id=one limit=50",
            "id force=true",
            "https://api-v2.soundcloud.com/search/tracks q=q client_id=two limit=50",
        ]
    );
    assert!(result.expect("no failure").is_empty());

    let (log, result) = run_search(
        "q",
        vec![Ok("one"), Ok("two")],
        vec![Err(failure(Some(401), "first")), Err(failure(Some(401), "second"))],
    );
    assert_eq!(log.len(), 4);
    assert_eq!(result.err().as_deref(), Some("second"));
}

#[test]
fn a_search_without_a_client_id_fails() {
    let (log, result) = run_search("q", vec![Err("none")], vec![]);
    assert_eq!(log.len(), 1);
    assert_eq!(result.err().as_deref(), Some("none"));
    let (log, result) =
        run_search("q", vec![Ok("one"), Err("none")], vec![Err(failure(Some(403), "first"))]);
    assert_eq!(log.len(), 3);
    assert_eq!(result.err().as_deref(), Some("none"));
}

#[test]
fn a_stream_that_resolves() {
    let track = song(vec![transcoding("hls", text("h")), transcoding("progressive", text("p"))]);
    let (log, result) = run_resolve(
        "5",
        vec![Ok("one"), Ok("one")],
        vec![Ok(track), Ok(object(vec![("url", text("file"))]))],
    );
    assert_eq!(
        log,
        vec![
            "id force=false",
            "https://api-v2.soundcloud.com/tracks/5 client_id=one",
            "id force=false",
            "p client_id=one track_authorization=key",
        ]
    );
    assert_eq!(result, Ok("file".to_string()));
}

#[test]
fn each_request_of_a_resolution_is_tried_twice() {
    let track = song(vec![transcoding("progressive", text("p"))]);
    let (log, result) = run_resolve(
        "5",
        vec![Ok("one"), Ok("two"), Ok("two"), Ok("three")],
        vec![
            Err(failure(None, "offline")),
            Ok(track),
            Err(failure(Some(403), "stale")),
            Err(failure(Some(403), "still stale")),
        ],
    );
    assert_eq!(
        log,
        vec![
            "id force=false",
            "https://api-v2.soundcloud.com/tracks/5 client_id=one",
            "id force=true",
            "https://api-v2.soundcloud.com/tracks/5 client_id=two",
            "id force=false",
            "p client_id=two track_authorization=key",
            "id force=true",
            "p client_id=three track_authorization=key",
        ]
    );
    assert_eq!(result, Err("still stale".to_string()));
}

#[test]
fn other_failures_of_a_resolution_end_it() {
    let (log, result) = run_resolve(
        "5",
        vec![Ok("one"), Ok("two")],
        vec![Err(failure(Some(404), "first")), Err(failure(Some(404), "second"))],
    );
    assert_eq!(log.len(), 4);
    assert_eq!(result, Err("second".to_string()));

    let track = song(vec![transcoding("progressive", text("p"))]);
    let (log, result) = run_resolve(
        "5",
        vec![Ok("one"), Ok("one")],
        vec![Ok(track), Err(failure(Some(500), "broken"))],
    );
    assert_eq!(log.len(), 4);
    assert_eq!(result, Err("broken".to_string()));

    let (_, result) = run_resolve("5", vec![Err("none")], vec![]);
    assert_eq!(result, Err("none".to_string()));
}

#[test]
fn tracks_that_cannot_be_streamed() {
    let no_media = "SoundCloud track exposes no media transcodings";
    let no_progressive = "SoundCloud track has no progressive (non-HLS) stream";
    assert_eq!(stream_target(&Json::Null).err().as_deref(), Some(no_media));
    assert_eq!(stream_target(&song(vec![])).err().as_deref(), Some(no_progressive));
    let hls = song(vec![transcoding("hls", text("h"))]);
    assert_eq!(stream_target(&hls).err().as_deref(), Some(no_progressive));
    // The first progressive transcoding decides.
    let nameless = song(vec![
        transcoding("progressive", Json::Null),
        transcoding("progressive", text("p")),
    ]);
    assert_eq!(stream_target(&nameless).err().as_deref(), Some(no_progressive));
    let (_, result) = run_resolve("5", vec![Ok("one")], vec![Ok(Json::Null)]);
    assert_eq!(result, Err(no_media.to_string()));
}

#[test]
fn answers_without_a_file() {
    let message = "SoundCloud returned no stream URL for this track";
    for answer in [
        Json::Null,
        object(vec![]),
        object(vec![("url", text(""))]),
        object(vec![("url", Json::Unsigned(1))]),
    ] {
        assert_eq!(stream_url(&answer), Err(message.to_string()));
    }
    assert_eq!(stream_url(&object(vec![("url", text("u"))])), Ok("u".to_string()));
}
