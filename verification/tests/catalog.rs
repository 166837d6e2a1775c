use media_source::artwork::{encode_cover_url, upscale_artwork};
use media_source::json::{Json, Member};
use media_source::search::found_tracks;
use media_source::text::decimal_text;
use media_source::track::{parse_track, track_id, transcoding_protocol, Track};
use serde_json::Value;

fn from_value(value: &Value) -> Json {
    match value {
        Value::Null => Json::Null,
        Value::Bool(b) => Json::Bool(*b),
        Value::Number(n) => match n.as_u64() {
            Some(n) => Json::Unsigned(n),
            None => Json::OtherNumber,
        },
        Value::String(s) => Json::Text(s.clone()),
        Value::Array(items) => Json::Array(items.iter().map(from_value).collect()),
        Value::Object(entries) => Json::Object(
            entries
                .iter()
                .map(|(name, value)| Member { name: name.clone(), value: from_value(value) })
                .collect(),
        ),
    }
}

fn json(text: &str) -> Json {
    let value: Value = serde_json::from_str(text).expect("valid JSON");
    from_value(&value)
}

fn track(text: &str) -> Track {
    parse_track(&json(text)).expect("a track")
}

const PROGRESSIVE: &str =
    r#""media": {"transcodings": [{"url": "x", "format": {"protocol": "progressive"}}]}"#;

#[test]
fn upscale_artwork_swaps_size_token() {
    assert_eq!(
        upscale_artwork("https://i1.sndcdn.com/artworks-xyz-large.jpg"),
        "https://i1.sndcdn.com/artworks-xyz-t500x500.jpg"
    );
    assert_eq!(upscale_artwork("https://x/y.png"), "https://x/y.png");
}

#[test]
fn parse_track_requires_progressive_transcoding() {
    let hls_only = json(
        r#"{
            "id": 1, "title": "t", "kind": "track",
            "user": {"username": "u"},
            "media": {"transcodings": [{"url": "x", "format": {"protocol": "hls"}}]}
        }"#,
    );
    assert!(parse_track(&hls_only).is_none());

    let ok = json(
        r#"{
            "id": 42, "title": "Song", "kind": "track",
            "duration": 215000,
            "artwork_url": "https://i1.sndcdn.com/artworks-z-large.jpg",
            "user": {"username": "Artist"},
            "media": {"transcodings": [{"url": "x", "format": {"protocol": "progressive"}}]}
        }"#,
    );
    let t = parse_track(&ok).expect("progressive track parses");
    assert_eq!(t.title, "Song");
    assert_eq!(t.artist, "Artist");
    assert_eq!(t.duration, 215);
    assert_eq!(track_id(&t), "42");
    assert!(t.path.starts_with("soundcloud:42:urlhex_"));
}

#[test]
fn upscale_artwork_swaps_every_token_once() {
    assert_eq!(upscale_artwork("-large.-large."), "-t500x500.-t500x500.");
    assert_eq!(upscale_artwork("-lar-large.ge."), "-lar-t500x500.ge.");
    assert_eq!(upscale_artwork("-large"), "-large");
    assert_eq!(upscale_artwork(""), "");
    assert_eq!(upscale_artwork("é-large.ü"), "é-t500x500.ü");
    let once = upscale_artwork("a-large.b-large.c");
    assert_eq!(upscale_artwork(&once), once);
}

#[test]
fn upscale_artwork_agrees_with_replace() {
    for url in ["--large..", "-large-large.", "x-LARGE.", "a-large.-larg-large.e.", "日-large.本"] {
        assert_eq!(upscale_artwork(url), url.replace("-large.", "-t500x500."));
    }
}

#[test]
fn cover_tag_is_lowercase_hex_of_utf8() {
    assert_eq!(encode_cover_url("Hello world!"), "urlhex_48656c6c6f20776f726c6421");
    assert_eq!(encode_cover_url(""), "urlhex_");
    assert_eq!(encode_cover_url("é/\u{ff}"), "urlhex_c3a92fc3bf");
    assert_ne!(encode_cover_url("a"), encode_cover_url("b"));
}

#[test]
fn cover_tag_decodes_to_url() {
    let url = "https://i1.sndcdn.com/artworks-ü-t500x500.jpg";
    let tag = encode_cover_url(url);
    let bytes = hex::decode(&tag["urlhex_".len()..]).expect("hex digits");
    assert_eq!(String::from_utf8(bytes).expect("UTF-8"), url);
}

#[test]
fn decimal_numerals() {
    for n in [0u64, 1, 9, 10, 99, 100, 1234567890, u64::MAX] {
        assert_eq!(decimal_text(n), n.to_string());
    }
}

#[test]
fn every_field_of_a_track() {
    let t = track(
        r#"{"id": 7, "title": "T", "full_duration": 61999, "duration": 30000,
            "artwork_url": "a-large.b", "user": {"username": "U", "avatar_url": "v"},
            "media": {"transcodings": [
                {"format": {"protocol": "hls"}}, {"format": {"protocol": "progressive"}}]}}"#,
    );
    let tag = encode_cover_url("a-t500x500.b");
    assert_eq!(t.path, format!("soundcloud:7:{tag}"));
    assert_eq!(t.album_id, format!("soundcloud:_:{tag}"));
    assert_eq!(t.title, "T");
    assert_eq!(t.artist, "U");
    assert_eq!(t.album, "");
    assert_eq!(t.duration, 61);
    assert_eq!((t.khz, t.bitrate), (0, 0));
    assert_eq!((t.track_number, t.disc_number), (None, None));
    assert_eq!(t.musicbrainz_release_id, None);
    assert_eq!(t.musicbrainz_recording_id, None);
    assert_eq!(t.musicbrainz_track_id, None);
    assert_eq!(t.playlist_item_id, None);
    assert_eq!(t.artists, vec!["U".to_string()]);
}

#[test]
fn a_bare_track() {
    let t = track(&format!("{{\"id\": 0, {PROGRESSIVE}}}"));
    assert_eq!(t.path, "soundcloud:0");
    assert_eq!(t.album_id, "soundcloud:_");
    assert_eq!(t.title, "");
    assert_eq!(t.artist, "");
    assert_eq!(t.duration, 0);
    assert!(t.artists.is_empty());
    assert_eq!(track_id(&t), "0");
}

#[test]
fn the_id_must_be_an_unsigned_number() {
    for id in ["-1", "1.5", "\"1\"", "null", "true", "18446744073709551616"] {
        assert!(parse_track(&json(&format!("{{\"id\": {id}, {PROGRESSIVE}}}"))).is_none());
    }
    let t = track(&format!("{{\"id\": 18446744073709551615, {PROGRESSIVE}}}"));
    assert_eq!(track_id(&t), "18446744073709551615");
}

#[test]
fn media_of_another_shape_is_no_track() {
    for media in ["null", "[]", "{}", "{\"transcodings\": {}}", "{\"transcodings\": []}"] {
        assert!(parse_track(&json(&format!("{{\"id\": 1, \"media\": {media}}}"))).is_none());
    }
    assert!(parse_track(&json("[]")).is_none());
    assert!(parse_track(&json("\"id\"")).is_none());
}

#[test]
fn artwork_falls_back_to_the_avatar() {
    let avatar = track(&format!(
        "{{\"id\": 1, \"artwork_url\": null, \"user\": {{\"avatar_url\": \"v\"}}, {PROGRESSIVE}}}"
    ));
    assert_eq!(avatar.path, "soundcloud:1:urlhex_76");
    let empty = track(&format!(
        "{{\"id\": 1, \"artwork_url\": \"\", \"user\": {{\"avatar_url\": \"v\"}}, {PROGRESSIVE}}}"
    ));
    assert_eq!(empty.path, "soundcloud:1");
}

#[test]
fn duration_falls_back_where_the_full_one_is_no_number() {
    let t = track(&format!(
        "{{\"id\": 1, \"full_duration\": \"x\", \"duration\": 1999, {PROGRESSIVE}}}"
    ));
    assert_eq!(t.duration, 1);
}

#[test]
fn protocol_of_a_transcoding() {
    let tc = json(r#"{"format": {"protocol": "hls"}}"#);
    assert_eq!(transcoding_protocol(&tc), Some("hls"));
    assert_eq!(transcoding_protocol(&json(r#"{"format": {"protocol": 1}}"#)), None);
    assert_eq!(transcoding_protocol(&json(r#"{"format": "hls"}"#)), None);
    assert_eq!(transcoding_protocol(&json("{}")), None);
}

#[test]
fn id_segment_of_other_paths() {
    let mut t = track(&format!("{{\"id\": 1, {PROGRESSIVE}}}"));
    for (path, id) in [("", ""), ("x", ""), ("a:", ""), ("a:b", "b"), ("a:b:c:d", "b"), (":b", "b")]
    {
        t.path = path.to_string();
        assert_eq!(track_id(&t), id);
    }
}

#[test]
fn search_results_are_tracks_each_once() {
    let item = |id: u32, kind: &str, title: &str| {
        format!("{{\"id\": {id}, \"kind\": \"{kind}\", \"title\": \"{title}\", {PROGRESSIVE}}}")
    };
    let text = format!(
        "{{\"collection\": [{}, {}, {}, {}, {{\"kind\": \"track\", \"id\": 9}}, {}]}}",
        item(3, "track", "first"),
        item(2, "playlist", "not a track"),
        item(1, "track", "second"),
        item(3, "track", "again"),
        item(2, "track", "third"),
    );
    let titles: Vec<String> = found_tracks(&json(&text)).into_iter().map(|t| t.title).collect();
    assert_eq!(titles, vec!["first", "second", "third"]);
}

#[test]
fn an_answer_without_a_collection_has_no_tracks() {
    for text in ["{}", "[]", "null", "{\"collection\": {}}", "{\"collection\": []}"] {
        assert!(found_tracks(&json(text)).is_empty());
    }
}

#[test]
fn the_first_entry_of_a_name_counts() {
    let object = Json::Object(vec![
        Member { name: "a".to_string(), value: Json::Unsigned(1) },
        Member { name: "a".to_string(), value: Json::Unsigned(2) },
    ]);
    assert_eq!(object.get("a").and_then(|v| v.as_u64()), Some(1));
    assert!(object.get("b").is_none());
    assert!(object.get("").is_none());
}
