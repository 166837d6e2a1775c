//! Where a cover lives.
//!
//! A cover is an image file of the local library, or an image that a server hands out. The
//! functions here decide which one to look up, and with what; the lookup itself is up to the
//! caller. They run for every row of long lists, so they decide without asking anybody.

use crate::request::optional_str;
use crate::text::optional_text;
use vstd::prelude::*;
use vstd::string::*;

verus! {

/// A kind of music library.
#[derive(Clone, Copy, PartialEq, Eq, Structural)]
pub enum Source {
    Local,
    Server,
}

/// A service that serves music.
#[derive(Clone, Copy, PartialEq, Eq, Structural)]
pub enum MusicService {
    Jellyfin,
    Subsonic,
    Custom,
    YtMusic,
    SoundCloud,
}

/// The server of the configuration.
pub struct MusicServer {
    pub url: String,
    pub access_token: Option<String>,
}

/// The part of the configuration that decides on covers.
pub struct AppConfig {
    pub active_source: Source,
    pub server: Option<MusicServer>,
}

/// The part of a track that decides on its cover.
pub struct CoverTrack {
    /// The service that the track comes from; a track of the local library has none.
    pub service: Option<MusicService>,
    /// The track's id at its service, or its path in the local library.
    pub key: String,
    /// The track's id with its service, `<service>:<id>`.
    pub uid: String,
    pub album_id: String,
    /// What the service says of the track's cover.
    pub cover: Option<String>,
}

/// The quality that an image is asked for in.
pub const IMAGE_QUALITY: u32 = 80;

/// How an image is asked for from a server.
pub struct ImageServer {
    pub url: String,
    pub access_token: Option<String>,
    pub max_width: u32,
    pub quality: u32,
}

/// A cover to look up.
pub enum CoverLookup {
    /// The image file of the local library, as a thumbnail. `file` is the text of its path.
    Thumb { file: Option<String>, max_width: u32 },
    /// The image that a Jellyfin image path names.
    JellyfinImage { path: String, server: ImageServer },
    /// The image of a track, by the rules of a Jellyfin server.
    JellyfinTrack { cover: Option<String>, key: String, album_id: String, server: ImageServer },
    /// The image that a Subsonic path names.
    SubsonicImage { path: String, server: ImageServer },
    /// The image at a URL, if there is one.
    Direct { url: Option<String> },
}

/// What an [`ImageServer`] holds, with texts as sequences of characters.
#[verifier::ext_equal]
pub struct ImageServerView {
    pub url: Seq<char>,
    pub access_token: Option<Seq<char>>,
    pub max_width: u32,
    pub quality: u32,
}

/// What a [`CoverLookup`] holds, with texts as sequences of characters.
#[verifier::ext_equal]
pub enum LookupView {
    Thumb { file: Option<Seq<char>>, max_width: u32 },
    JellyfinImage { path: Seq<char>, server: ImageServerView },
    JellyfinTrack {
        cover: Option<Seq<char>>,
        key: Seq<char>,
        album_id: Seq<char>,
        server: ImageServerView,
    },
    SubsonicImage { path: Seq<char>, server: ImageServerView },
    Direct { url: Option<Seq<char>> },
}

impl View for ImageServer {
    type V = ImageServerView;

    open spec fn view(&self) -> ImageServerView {
        ImageServerView {
            url: self.url@,
            access_token: optional_text(self.access_token),
            max_width: self.max_width,
            quality: self.quality,
        }
    }
}

impl View for CoverLookup {
    type V = LookupView;

    open spec fn view(&self) -> LookupView {
        match *self {
            CoverLookup::Thumb { file, max_width } => LookupView::Thumb {
                file: optional_text(file),
                max_width,
            },
            CoverLookup::JellyfinImage { path, server } => LookupView::JellyfinImage {
                path: path@,
                server: server@,
            },
            CoverLookup::JellyfinTrack { cover, key, album_id, server } => LookupView::JellyfinTrack {
                cover: optional_text(cover),
                key: key@,
                album_id: album_id@,
                server: server@,
            },
            CoverLookup::SubsonicImage { path, server } => LookupView::SubsonicImage {
                path: path@,
                server: server@,
            },
            CoverLookup::Direct { url } => LookupView::Direct { url: optional_text(url) },
        }
    }
}

/// What an optional lookup holds.
pub open spec fn lookup_view(r: Option<CoverLookup>) -> Option<LookupView> {
    match r {
        Some(l) => Some(l@),
        None => None,
    }
}

/// The configured server, asked for an image of this width.
pub open spec fn configured(server: MusicServer, max_width: u32) -> ImageServerView {
    ImageServerView {
        url: server.url@,
        access_token: optional_text(server.access_token),
        max_width,
        quality: IMAGE_QUALITY,
    }
}

/// No server at all, where what the service says of a cover is enough.
pub open spec fn nowhere(max_width: u32) -> ImageServerView {
    ImageServerView { url: ""@, access_token: None, max_width, quality: IMAGE_QUALITY }
}

/// The lookup behind a stored cover path.
pub open spec fn path_lookup(
    config: AppConfig,
    cover_path: Option<Seq<char>>,
    max_width: u32,
) -> Option<LookupView> {
    match config.active_source {
        Source::Local => Some(LookupView::Thumb { file: cover_path, max_width }),
        Source::Server => match (config.server, cover_path) {
            (Some(server), Some(path)) => Some(
                LookupView::JellyfinImage { path, server: configured(server, max_width) },
            ),
            _ => None,
        },
    }
}

/// The path under which a Subsonic server knows the cover of a track.
pub open spec fn subsonic_path(track: CoverTrack) -> Seq<char> {
    match track.cover {
        Some(cover) => track.uid@ + ":"@ + cover@,
        None => track.uid@,
    }
}

/// The lookup behind a track of a service.
pub open spec fn service_lookup(
    service: MusicService,
    server: MusicServer,
    track: CoverTrack,
    max_width: u32,
) -> LookupView {
    match service {
        MusicService::Jellyfin => LookupView::JellyfinTrack {
            cover: optional_text(track.cover),
            key: track.key@,
            album_id: track.album_id@,
            server: configured(server, max_width),
        },
        MusicService::Subsonic | MusicService::Custom => LookupView::SubsonicImage {
            path: subsonic_path(track),
            server: configured(server, max_width),
        },
        MusicService::YtMusic => LookupView::JellyfinTrack {
            cover: optional_text(track.cover),
            key: track.key@,
            album_id: track.album_id@,
            server: nowhere(max_width),
        },
        MusicService::SoundCloud => LookupView::Direct { url: optional_text(track.cover) },
    }
}

/// The lookup behind a track.
pub open spec fn track_lookup(
    config: AppConfig,
    track: CoverTrack,
    album_cover_path: Option<Seq<char>>,
    max_width: u32,
) -> Option<LookupView> {
    match track.service {
        None => Some(LookupView::Thumb { file: album_cover_path, max_width }),
        Some(service) => match config.server {
            None => None,
            Some(server) => Some(service_lookup(service, server, track, max_width)),
        },
    }
}

/// Copies an optional text.
fn owned(s: Option<&str>) -> (r: Option<String>)
    ensures
        optional_text(r) == optional_str(s),
{
    match s {
        Some(s) => Some(s.to_string()),
        None => None,
    }
}

/// The configured server, asked for an image of this width.
fn image_server(server: &MusicServer, max_width: u32) -> (r: ImageServer)
    ensures
        r@ == configured(*server, max_width),
{
    ImageServer {
        url: server.url.clone(),
        access_token: server.access_token.clone(),
        max_width,
        quality: IMAGE_QUALITY,
    }
}

/// The lookup behind a stored cover path: that of an album cover or of an artist's picture.
/// The path is one of the file system where the library is local, and an image path of the
/// server otherwise.
pub fn from_path(config: &AppConfig, cover_path: Option<&str>, max_width: u32) -> (r: Option<
    CoverLookup,
>)
    ensures
        lookup_view(r) == path_lookup(*config, optional_str(cover_path), max_width),
{
    match config.active_source {
        Source::Local => Some(CoverLookup::Thumb { file: owned(cover_path), max_width }),
        Source::Server => match (&config.server, cover_path) {
            (Some(server), Some(path)) => Some(
                CoverLookup::JellyfinImage {
                    path: path.to_string(),
                    server: image_server(server, max_width),
                },
            ),
            _ => None,
        },
    }
}

/// The lookup behind a track. The track's own service decides, whatever source is active, so
/// that a mixed list shows every cover. A local track shows the cover of its album.
pub fn track(
    config: &AppConfig,
    song: &CoverTrack,
    album_cover_path: Option<&str>,
    max_width: u32,
) -> (r: Option<CoverLookup>)
    ensures
        lookup_view(r) == track_lookup(*config, *song, optional_str(album_cover_path), max_width),
{
    let service = match song.service {
        Some(service) => service,
        None => return Some(CoverLookup::Thumb { file: owned(album_cover_path), max_width }),
    };
    let server = match &config.server {
        Some(server) => server,
        None => return None,
    };
    Some(
        match service {
            MusicService::Jellyfin => CoverLookup::JellyfinTrack {
                cover: song.cover.clone(),
                key: song.key.clone(),
                album_id: song.album_id.clone(),
                server: image_server(server, max_width),
            },
            MusicService::Subsonic | MusicService::Custom => {
                let mut path = song.uid.clone();
                if let Some(cover) = &song.cover {
                    path.append(":");
                    path.append(cover.as_str());
                }
                CoverLookup::SubsonicImage { path, server: image_server(server, max_width) }
            },
            MusicService::YtMusic => CoverLookup::JellyfinTrack {
                cover: song.cover.clone(),
                key: song.key.clone(),
                album_id: song.album_id.clone(),
                server: ImageServer {
                    url: "".to_string(),
                    access_token: None,
                    max_width,
                    quality: IMAGE_QUALITY,
                },
            },
            MusicService::SoundCloud => CoverLookup::Direct { url: song.cover.clone() },
        },
    )
}

/// The cover of a track does not depend on the active source.
pub proof fn law_track_cover_ignores_active_source(
    config: AppConfig,
    source: Source,
    track: CoverTrack,
    album_cover_path: Option<Seq<char>>,
    max_width: u32,
)
    ensures
        track_lookup(config, track, album_cover_path, max_width) == track_lookup(
            AppConfig { active_source: source, server: config.server },
            track,
            album_cover_path,
            max_width,
        ),
{
}

/// A local track and an album of the local library show their image file, whatever server is
/// configured.
pub proof fn law_local_covers_need_no_server(
    config: AppConfig,
    track: CoverTrack,
    cover_path: Option<Seq<char>>,
    max_width: u32,
)
    ensures
        track.service is None ==> track_lookup(config, track, cover_path, max_width) == Some(
            LookupView::Thumb { file: cover_path, max_width },
        ),
        config.active_source == Source::Local ==> path_lookup(config, cover_path, max_width)
            == Some(LookupView::Thumb { file: cover_path, max_width }),
{
}

/// Without a configured server no image of a server is looked up.
pub proof fn law_no_server_no_image(
    config: AppConfig,
    track: CoverTrack,
    cover_path: Option<Seq<char>>,
    max_width: u32,
)
    requires
        config.server is None,
    ensures
        track.service is Some ==> track_lookup(config, track, cover_path, max_width) is None,
        config.active_source == Source::Server ==> path_lookup(config, cover_path, max_width)
            is None,
{
}

/// The image is asked for from this server, in this width and in a quality of eighty.
pub open spec fn asks(image: ImageServerView, server: MusicServer, max_width: u32) -> bool {
    &&& image.url == server.url@
    &&& server.access_token is None ==> image.access_token is None
    &&& server.access_token matches Some(token) ==> image.access_token == Some(token@)
    &&& image.max_width == max_width
    &&& image.quality == 80
}

/// The image is asked for from no server, in this width and in a quality of eighty.
pub open spec fn asks_nobody(image: ImageServerView, max_width: u32) -> bool {
    &&& image.url.len() == 0
    &&& image.access_token is None
    &&& image.max_width == max_width
    &&& image.quality == 80
}

/// The text is what the track says of its own cover, and there is none where it says nothing.
pub open spec fn is_cover_of(text: Option<Seq<char>>, track: CoverTrack) -> bool {
    &&& track.cover is None ==> text is None
    &&& track.cover matches Some(cover) ==> text == Some(cover@)
}

/// With a server, the lookup of a track of any service carries what the track says of its own
/// cover. Jellyfin and YouTube Music have it beside the ids of the track and of the album,
/// Jellyfin from the server and YouTube Music from nobody; Subsonic and custom servers have it
/// at the end of the path, behind the track's uid; SoundCloud has it for the URL.
pub proof fn law_track_lookup_carries_the_cover(
    config: AppConfig,
    server: MusicServer,
    service: MusicService,
    track: CoverTrack,
    album_cover_path: Option<Seq<char>>,
    max_width: u32,
)
    requires
        config.server == Some(server),
        track.service == Some(service),
    ensures
        track_lookup(config, track, album_cover_path, max_width) matches Some(lookup) && {
            &&& service is Jellyfin ==> (lookup matches LookupView::JellyfinTrack {
                cover,
                key,
                album_id,
                server: image,
            } && is_cover_of(cover, track) && key == track.key@ && album_id == track.album_id@
                && asks(image, server, max_width))
            &&& service is YtMusic ==> (lookup matches LookupView::JellyfinTrack {
                cover,
                key,
                album_id,
                server: image,
            } && is_cover_of(cover, track) && key == track.key@ && album_id == track.album_id@
                && asks_nobody(image, max_width))
            &&& service is Subsonic || service is Custom ==> (
            lookup matches LookupView::SubsonicImage { path, server: image } && asks(
                image,
                server,
                max_width,
            ) && (track.cover is None ==> path == track.uid@) && (track.cover matches Some(cover)
                ==> path.len() == track.uid@.len() + 1 + cover@.len() && path.take(
                track.uid@.len() as int,
            ) == track.uid@ && path[track.uid@.len() as int] == ':' && path.skip(
                track.uid@.len() as int + 1,
            ) == cover@))
            &&& service is SoundCloud ==> (lookup matches LookupView::Direct { url }
                && is_cover_of(url, track))
        },
{
    reveal_strlit("");
    reveal_strlit(":");
    if let Some(cover) = track.cover {
        let path = track.uid@ + ":"@ + cover@;
        assert(path.take(track.uid@.len() as int) =~= track.uid@);
        assert(path.skip(track.uid@.len() as int + 1) =~= cover@);
    }
}

/// A local track shows the cover file of its album, the path as the caller holds it; a track of
/// a service shows nothing without a server.
pub proof fn law_track_lookup_without_service_or_server(
    config: AppConfig,
    track: CoverTrack,
    album_cover_path: Option<Seq<char>>,
    max_width: u32,
)
    ensures
        track.service is None ==> (track_lookup(
            config,
            track,
            album_cover_path,
            max_width,
        ) matches Some(LookupView::Thumb { file, max_width: width }) && file == album_cover_path
            && width == max_width),
        track.service is Some && config.server is None ==> track_lookup(
            config,
            track,
            album_cover_path,
            max_width,
        ) is None,
{
}

/// A stored cover path is looked up as it is: as a file where the library is local, and from the
/// configured server otherwise. Only the server's lookup needs both a server and a path.
pub proof fn law_path_lookup_keeps_the_path(
    config: AppConfig,
    cover_path: Option<Seq<char>>,
    max_width: u32,
)
    ensures
        config.active_source is Local ==> (path_lookup(
            config,
            cover_path,
            max_width,
        ) matches Some(LookupView::Thumb { file, max_width: width }) && file == cover_path && width
            == max_width),
        config.active_source is Server && config.server is Some && cover_path is Some ==> (
        path_lookup(config, cover_path, max_width) matches Some(
            LookupView::JellyfinImage { path, server: image },
        ) && path == cover_path->0 && asks(image, config.server->0, max_width)),
        config.active_source is Server && (config.server is None || cover_path is None)
            ==> path_lookup(config, cover_path, max_width) is None,
{
}

/// The view of a lookup has the lookup's own texts.
pub proof fn law_lookup_view_is_the_lookup(
    file: Option<String>,
    text: String,
    key: String,
    album_id: String,
    max_width: u32,
    server: ImageServer,
)
    ensures
        (CoverLookup::Thumb { file, max_width })@ == (LookupView::Thumb {
            file: optional_text(file),
            max_width,
        }),
        (CoverLookup::JellyfinImage { path: text, server })@ == (LookupView::JellyfinImage {
            path: text@,
            server: server@,
        }),
        (CoverLookup::JellyfinTrack { cover: file, key, album_id, server })@ == (
        LookupView::JellyfinTrack {
            cover: optional_text(file),
            key: key@,
            album_id: album_id@,
            server: server@,
        }),
        (CoverLookup::SubsonicImage { path: text, server })@ == (LookupView::SubsonicImage {
            path: text@,
            server: server@,
        }),
        (CoverLookup::Direct { url: file })@ == (LookupView::Direct { url: optional_text(file) }),
        server@.url == server.url@,
        server@.access_token == optional_text(server.access_token),
        server@.max_width == server.max_width,
        server@.quality == server.quality,
        lookup_view(None) is None,
        lookup_view(Some(CoverLookup::Direct { url: file })) == Some(
            LookupView::Direct { url: optional_text(file) },
        ),
{
}

} // verus!
