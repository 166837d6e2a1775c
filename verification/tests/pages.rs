use media_source::cover::{
    from_path, track, AppConfig, CoverLookup, CoverTrack, ImageServer, MusicServer, MusicService,
    Source,
};
use media_source::home::{Home, UiStyle};

fn config(active_source: Source, server: bool) -> AppConfig {
    let server = if server {
        Some(MusicServer { url: "http://s".to_string(), access_token: Some("tok".to_string()) })
    } else {
        None
    };
    AppConfig { active_source, server }
}

fn song(service: Option<MusicService>, cover: Option<&str>) -> CoverTrack {
    CoverTrack {
        service,
        key: "key".to_string(),
        uid: "uid".to_string(),
        album_id: "album".to_string(),
        cover: cover.map(str::to_string),
    }
}

fn server_text(server: &ImageServer) -> String {
    format!("{} {:?} {} {}", server.url, server.access_token, server.max_width, server.quality)
}

fn describe(lookup: Option<CoverLookup>) -> String {
    match lookup {
        None => "none".to_string(),
        Some(CoverLookup::Thumb { file, max_width }) => format!("thumb {:?} {max_width}", file),
        Some(CoverLookup::JellyfinImage { path, server }) => {
            format!("jellyfin {path} {}", server_text(&server))
        }
        Some(CoverLookup::JellyfinTrack { cover, key, album_id, server }) => {
            format!("jellyfin track {:?} {key} {album_id} {}", cover, server_text(&server))
        }
        Some(CoverLookup::SubsonicImage { path, server }) => {
            format!("subsonic {path} {}", server_text(&server))
        }
        Some(CoverLookup::Direct { url }) => format!("direct {:?}", url),
    }
}

#[test]
fn covers_of_stored_paths() {
    let local = config(Source::Local, true);
    assert_eq!(describe(from_path(&local, Some("/a.jpg"), 300)), "thumb Some(\"/a.jpg\") 300");
    assert_eq!(describe(from_path(&local, None, 300)), "thumb None 300");
    let server = config(Source::Server, true);
    assert_eq!(
        describe(from_path(&server, Some("item"), 300)),
        "jellyfin item http://s Some(\"tok\") 300 80"
    );
    assert_eq!(describe(from_path(&server, None, 300)), "none");
    assert_eq!(describe(from_path(&config(Source::Server, false), Some("item"), 300)), "none");
}

#[test]
fn covers_of_tracks() {
    let config = config(Source::Local, true);
    let of = |service, cover| describe(track(&config, &song(service, cover), Some("/a.jpg"), 64));
    assert_eq!(of(None, Some("c")), "thumb Some(\"/a.jpg\") 64");
    assert_eq!(
        of(Some(MusicService::Jellyfin), Some("c")),
        "jellyfin track Some(\"c\") key album http://s Some(\"tok\") 64 80"
    );
    assert_eq!(
        of(Some(MusicService::Subsonic), Some("c")),
        "subsonic uid:c http://s Some(\"tok\") 64 80"
    );
    assert_eq!(
        of(Some(MusicService::Custom), None),
        "subsonic uid http://s Some(\"tok\") 64 80"
    );
    assert_eq!(
        of(Some(MusicService::YtMusic), None),
        "jellyfin track None key album  None 64 80"
    );
    assert_eq!(of(Some(MusicService::SoundCloud), Some("http://c")), "direct Some(\"http://c\")");
    assert_eq!(of(Some(MusicService::SoundCloud), None), "direct None");
}

#[test]
fn the_active_source_does_not_decide_on_tracks() {
    for service in [None, Some(MusicService::Jellyfin), Some(MusicService::SoundCloud)] {
        for server in [false, true] {
            let song = song(service, Some("c"));
            assert_eq!(
                describe(track(&config(Source::Local, server), &song, None, 1)),
                describe(track(&config(Source::Server, server), &song, None, 1))
            );
        }
    }
}

#[test]
fn tracks_of_a_service_need_a_server() {
    let config = config(Source::Server, false);
    for service in [
        MusicService::Jellyfin,
        MusicService::Subsonic,
        MusicService::Custom,
        MusicService::YtMusic,
        MusicService::SoundCloud,
    ] {
        assert_eq!(describe(track(&config, &song(Some(service), Some("c")), None, 1)), "none");
    }
    assert_eq!(describe(track(&config, &song(None, None), None, 1)), "thumb None 1");
}

#[test]
fn home_page_layouts() {
    let modern = Home(Source::Server, UiStyle::Modern);
    assert_eq!(modern.class, "px-6 pt-4 pb-24 w-full max-w-[1600px] mx-auto");
    assert_eq!(modern.title, None);
    assert!(modern.body == Source::Server);
    let classic = Home(Source::Local, UiStyle::Classic);
    assert_eq!(
        classic.class,
        "p-8 space-y-12 pb-32 animate-fade-in w-full max-w-[1600px] mx-auto"
    );
    assert_eq!(classic.title, Some("home"));
    assert!(classic.body == Source::Local);
}
