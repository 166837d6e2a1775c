//! Tracks of the catalog: how a track is read from the catalog's JSON.

use crate::artwork::{
    cover_tag, encode_cover_url, hex_bytes, law_cover_tag_decodes, lemma_cover_tag_lacks_colon,
    upscale_artwork, upscaled,
};
use crate::json::{
    array_of, holds, items_of, law_entry_is_what_the_object_holds,
    law_nested_entry_is_what_is_held, no_nested_string, no_number, no_string, str_of, text_of,
    u64_of, unsigned_of, Json,
};
use crate::text::{
    decimal, decimal_text, lacks, law_decimal_injective, lemma_decimal_digits, lemma_split_end,
    lemma_split_step, optional_text, same_text, split, split_from, texts,
};
use vstd::prelude::*;
use vstd::string::*;
use vstd::utf8::decode_utf8;

verus! {

/// The first segment of every path and id of this source.
pub const SOURCE_PREFIX: &'static str = "soundcloud";

/// A playable track.
pub struct Track {
    pub path: String,
    pub album_id: String,
    pub title: String,
    pub artist: String,
    pub album: String,
    /// In seconds.
    pub duration: u64,
    pub khz: u32,
    pub bitrate: u32,
    pub track_number: Option<u32>,
    pub disc_number: Option<u32>,
    pub musicbrainz_release_id: Option<String>,
    pub musicbrainz_recording_id: Option<String>,
    pub musicbrainz_track_id: Option<String>,
    pub playlist_item_id: Option<String>,
    pub artists: Vec<String>,
}

/// What a [`Track`] holds, with texts as sequences of characters.
#[verifier::ext_equal]
pub struct TrackView {
    pub path: Seq<char>,
    pub album_id: Seq<char>,
    pub title: Seq<char>,
    pub artist: Seq<char>,
    pub album: Seq<char>,
    pub duration: u64,
    pub khz: u32,
    pub bitrate: u32,
    pub track_number: Option<u32>,
    pub disc_number: Option<u32>,
    pub musicbrainz_release_id: Option<Seq<char>>,
    pub musicbrainz_recording_id: Option<Seq<char>>,
    pub musicbrainz_track_id: Option<Seq<char>>,
    pub playlist_item_id: Option<Seq<char>>,
    pub artists: Seq<Seq<char>>,
}

impl View for Track {
    type V = TrackView;

    open spec fn view(&self) -> TrackView {
        TrackView {
            path: self.path@,
            album_id: self.album_id@,
            title: self.title@,
            artist: self.artist@,
            album: self.album@,
            duration: self.duration,
            khz: self.khz,
            bitrate: self.bitrate,
            track_number: self.track_number,
            disc_number: self.disc_number,
            musicbrainz_release_id: optional_text(self.musicbrainz_release_id),
            musicbrainz_recording_id: optional_text(self.musicbrainz_recording_id),
            musicbrainz_track_id: optional_text(self.musicbrainz_track_id),
            playlist_item_id: optional_text(self.playlist_item_id),
            artists: texts(self.artists@),
        }
    }
}

/// The protocol that a transcoding names.
pub open spec fn protocol(tc: Json) -> Option<Seq<char>> {
    text_of(tc.nested("format"@, "protocol"@))
}

/// The transcoding is one plain file rather than a playlist of segments.
pub open spec fn is_progressive(tc: Json) -> bool {
    protocol(tc) == Some("progressive"@)
}

/// The transcodings that a track offers.
pub open spec fn transcodings(item: Json) -> Option<Seq<Json>> {
    items_of(item.nested("media"@, "transcodings"@))
}

/// The track offers a progressive transcoding.
pub open spec fn has_progressive(item: Json) -> bool {
    transcodings(item) is Some && exists|i: int|
        0 <= i < transcodings(item)->0.len() && is_progressive(#[trigger] transcodings(item)->0[i])
}

/// The position of the first progressive transcoding from `from` on.
pub open spec fn progressive_from(list: Seq<Json>, from: int) -> Option<int>
    decreases list.len() - from,
{
    if from < 0 || from >= list.len() {
        None
    } else if is_progressive(list[from]) {
        Some(from)
    } else {
        progressive_from(list, from + 1)
    }
}

/// What `progressive_from` finds is a progressive transcoding, and it finds one wherever there
/// is one.
pub proof fn lemma_progressive_from(list: Seq<Json>, from: int)
    requires
        0 <= from,
    ensures
        match progressive_from(list, from) {
            Some(i) => from <= i < list.len() && is_progressive(list[i]),
            None => forall|i: int| from <= i < list.len() ==> !is_progressive(#[trigger] list[i]),
        },
    decreases list.len() - from,
{
    if from < list.len() && !is_progressive(list[from]) {
        lemma_progressive_from(list, from + 1);
    }
}

/// An optional text, or the empty one.
pub open spec fn or_empty(s: Option<Seq<char>>) -> Seq<char> {
    match s {
        Some(s) => s,
        None => Seq::empty(),
    }
}

/// The artwork URL that the catalog gives: the track's own, or else the uploader's picture.
pub open spec fn raw_artwork(item: Json) -> Option<Seq<char>> {
    match text_of(item.entry("artwork_url"@)) {
        Some(url) => Some(url),
        None => text_of(item.nested("user"@, "avatar_url"@)),
    }
}

/// The artwork URL to show. An empty one counts as none.
pub open spec fn artwork(item: Json) -> Option<Seq<char>> {
    match raw_artwork(item) {
        Some(url) => if url.len() == 0 {
            None
        } else {
            Some(upscaled(url))
        },
        None => None,
    }
}

/// The length in whole seconds: the full length where the catalog gives it, or else the
/// length of what it streams, or else zero.
pub open spec fn seconds(item: Json) -> u64 {
    match unsigned_of(item.entry("full_duration"@)) {
        Some(ms) => ms / 1000,
        None => match unsigned_of(item.entry("duration"@)) {
            Some(ms) => ms / 1000,
            None => 0,
        },
    }
}

/// `soundcloud:<id>`, followed by `:<tag>` where there is artwork.
pub open spec fn tagged(id: Seq<char>, art: Option<Seq<char>>) -> Seq<char> {
    let bare = SOURCE_PREFIX@ + ":"@ + id;
    match art {
        Some(url) => bare + ":"@ + cover_tag(url),
        None => bare,
    }
}

/// The track that a catalog item describes: an item without a numeric id or without a
/// progressive transcoding describes none.
pub open spec fn described_track(item: Json) -> Option<TrackView> {
    match unsigned_of(item.entry("id"@)) {
        None => None,
        Some(id) => if !has_progressive(item) {
            None
        } else {
            let artist = or_empty(text_of(item.nested("user"@, "username"@)));
            Some(
                TrackView {
                    path: tagged(decimal(id as nat), artwork(item)),
                    album_id: tagged("_"@, artwork(item)),
                    title: or_empty(text_of(item.entry("title"@))),
                    artist,
                    album: Seq::empty(),
                    duration: seconds(item),
                    khz: 0,
                    bitrate: 0,
                    track_number: None,
                    disc_number: None,
                    musicbrainz_release_id: None,
                    musicbrainz_recording_id: None,
                    musicbrainz_track_id: None,
                    playlist_item_id: None,
                    artists: if artist.len() == 0 {
                        Seq::empty()
                    } else {
                        seq![artist]
                    },
                },
            )
        },
    }
}

/// Reads the protocol that a transcoding names.
pub fn transcoding_protocol(tc: &Json) -> (r: Option<&str>)
    ensures
        match r {
            Some(s) => protocol(*tc) == Some(s@),
            None => protocol(*tc) is None,
        },
{
    str_of(tc.get_nested("format", "protocol"))
}

/// Finds the first progressive transcoding of a list.
pub fn first_progressive(list: &Vec<Json>) -> (r: Option<usize>)
    ensures
        match r {
            Some(i) => i < list.len() && progressive_from(list@, 0) == Some(i as int),
            None => progressive_from(list@, 0) is None,
        },
{
    let mut i: usize = 0;
    while i < list.len()
        invariant
            i <= list.len(),
            progressive_from(list@, 0) == progressive_from(list@, i as int),
        decreases list.len() - i,
    {
        if let Some(p) = transcoding_protocol(&list[i]) {
            if same_text(p, "progressive") {
                return Some(i);
            }
        }
        i += 1;
    }
    None
}

/// Whether a track offers a progressive transcoding.
fn offers_progressive(item: &Json) -> (r: bool)
    ensures
        r == has_progressive(*item),
{
    match array_of(item.get_nested("media", "transcodings")) {
        Some(list) => {
            proof {
                lemma_progressive_from(list@, 0);
                assert(list@ == transcodings(*item)->0);
            }
            first_progressive(list).is_some()
        },
        None => false,
    }
}

/// Copies an optional text, or makes an empty one.
fn owned_or_empty(s: Option<&str>) -> (r: String)
    ensures
        match s {
            Some(s) => r@ == s@,
            None => r@ == Seq::<char>::empty(),
        },
{
    match s {
        Some(s) => s.to_string(),
        None => String::new(),
    }
}

/// Writes `soundcloud:<id>`, followed by `:<tag>` where there is artwork.
fn tagged_text(id: &str, tag: &Option<String>) -> (r: String)
    ensures
        match tag {
            Some(tag) => r@ == SOURCE_PREFIX@ + ":"@ + id@ + ":"@ + tag@,
            None => r@ == SOURCE_PREFIX@ + ":"@ + id@,
        },
{
    let mut r = SOURCE_PREFIX.to_string();
    r.append(":");
    r.append(id);
    if let Some(tag) = tag {
        r.append(":");
        r.append(tag.as_str());
    }
    r
}

/// Reads the artwork URL to show.
fn artwork_of(item: &Json) -> (r: Option<String>)
    ensures
        optional_text(r) == artwork(*item),
{
    let own = str_of(item.get("artwork_url"));
    let raw = match own {
        Some(url) => Some(url),
        None => str_of(item.get_nested("user", "avatar_url")),
    };
    match raw {
        Some(url) => if url.is_empty() {
            None
        } else {
            Some(upscale_artwork(url))
        },
        None => None,
    }
}

/// Reads the length in whole seconds.
fn seconds_of(item: &Json) -> (r: u64)
    ensures
        r == seconds(*item),
{
    let ms = match u64_of(item.get("full_duration")) {
        Some(ms) => Some(ms),
        None => u64_of(item.get("duration")),
    };
    match ms {
        Some(ms) => ms / 1000,
        None => 0,
    }
}

/// Reads a track from a catalog item. Only what can be streamed as one plain file is a track.
pub fn parse_track(item: &Json) -> (r: Option<Track>)
    ensures
        match r {
            Some(t) => described_track(*item) == Some(t@),
            None => described_track(*item) is None,
        },
{
    let id = match u64_of(item.get("id")) {
        Some(id) => id,
        None => return None,
    };
    if !offers_progressive(item) {
        return None;
    }
    let title = owned_or_empty(str_of(item.get("title")));
    let artist = owned_or_empty(str_of(item.get_nested("user", "username")));
    let tag = match artwork_of(item) {
        Some(url) => Some(encode_cover_url(url.as_str())),
        None => None,
    };
    let id_text = decimal_text(id);
    let path = tagged_text(id_text.as_str(), &tag);
    let album_id = tagged_text("_", &tag);
    let artists = if artist.as_str().is_empty() {
        Vec::new()
    } else {
        vec![artist.clone()]
    };
    let track = Track {
        path,
        album_id,
        title,
        artist,
        album: String::new(),
        duration: seconds_of(item),
        khz: 0,
        bitrate: 0,
        track_number: None,
        disc_number: None,
        musicbrainz_release_id: None,
        musicbrainz_recording_id: None,
        musicbrainz_track_id: None,
        playlist_item_id: None,
        artists,
    };
    assert(track@ =~= described_track(*item)->0);
    Some(track)
}

/// The id segment of a `soundcloud:<id>[:<tag>]` path, or the empty text where there is none.
pub open spec fn id_segment(path: Seq<char>) -> Seq<char> {
    let segments = split_from(path, ":"@, 0);
    if segments.len() > 1 {
        segments[1]
    } else {
        Seq::empty()
    }
}

/// Pulls the id segment out of the path of a track.
pub fn track_id(t: &Track) -> (r: String)
    ensures
        r@ == id_segment(t.path@),
{
    proof {
        reveal_strlit(":");
    }
    let segments = split(t.path.as_str(), ":");
    assert(texts(segments@).len() == segments@.len());
    if segments.len() > 1 {
        assert(texts(segments@)[1] == segments@[1]@);
        segments[1].clone()
    } else {
        String::new()
    }
}

/// The segments of a tagged text: the source, the id, and the cover tag where there is
/// artwork.
pub proof fn law_path_segments(id: Seq<char>, art: Option<Seq<char>>)
    requires
        lacks(id, ':'),
    ensures
        split_from(tagged(id, art), ":"@, 0) == match art {
            Some(url) => seq![SOURCE_PREFIX@, id, cover_tag(url)],
            None => seq![SOURCE_PREFIX@, id],
        },
{
    reveal_strlit(":");
    reveal_strlit("soundcloud");
    let s = tagged(id, art);
    let sep = ":"@;
    let n = 11 + id.len() as int;
    assert(SOURCE_PREFIX@.len() == 10);
    assert(s.subrange(0, 10) =~= SOURCE_PREFIX@);
    assert(s[10] == ':');
    lemma_split_step(s, sep, 0, 10);
    assert(s.subrange(11, n) =~= id);
    match art {
        Some(url) => {
            assert(s[n] == ':');
            lemma_split_step(s, sep, 11, n);
            assert(s.subrange(n + 1, s.len() as int) =~= cover_tag(url));
            lemma_cover_tag_lacks_colon(url);
            lemma_split_end(s, sep, n + 1);
            assert(split_from(s, sep, 0) =~= seq![SOURCE_PREFIX@, id, cover_tag(url)]);
        },
        None => {
            assert(s.len() == n);
            lemma_split_end(s, sep, 11);
            assert(split_from(s, sep, 0) =~= seq![SOURCE_PREFIX@, id]);
        },
    }
}

/// The id segment of the path of a track is the numeral of the id that the catalog gives.
pub proof fn law_track_id_is_catalog_id(item: Json)
    requires
        described_track(item) is Some,
    ensures
        unsigned_of(item.entry("id"@)) is Some,
        id_segment(described_track(item)->0.path) == decimal(
            unsigned_of(item.entry("id"@))->0 as nat,
        ),
        id_segment(described_track(item)->0.path).len() > 0,
{
    let id = unsigned_of(item.entry("id"@))->0 as nat;
    lemma_decimal_digits(id);
    law_path_segments(decimal(id), artwork(item));
}

/// Two tracks with the same id segment have the same id in the catalog.
pub proof fn law_same_id_segment_same_catalog_id(a: Json, b: Json)
    requires
        described_track(a) is Some,
        described_track(b) is Some,
        id_segment(described_track(a)->0.path) == id_segment(described_track(b)->0.path),
    ensures
        unsigned_of(a.entry("id"@)) == unsigned_of(b.entry("id"@)),
{
    law_track_id_is_catalog_id(a);
    law_track_id_is_catalog_id(b);
    law_decimal_injective(
        unsigned_of(a.entry("id"@))->0 as nat,
        unsigned_of(b.entry("id"@))->0 as nat,
    );
}

/// The artwork of a track can be decoded from its path, and from its album id alike: it is in
/// the last of three segments. A track without artwork has two.
pub proof fn law_artwork_is_in_path(item: Json)
    requires
        described_track(item) is Some,
    ensures
        ({
            let t = described_track(item)->0;
            let path = split_from(t.path, ":"@, 0);
            let album = split_from(t.album_id, ":"@, 0);
            match artwork(item) {
                Some(url) => path.len() == 3 && album.len() == 3 && path[2] == album[2]
                    && path[2].take(7) == "urlhex_"@ && decode_utf8(hex_bytes(path[2].skip(7)))
                    == url,
                None => path.len() == 2 && album.len() == 2,
            }
        }),
{
    let id = unsigned_of(item.entry("id"@))->0 as nat;
    lemma_decimal_digits(id);
    law_path_segments(decimal(id), artwork(item));
    reveal_strlit("_");
    law_path_segments("_"@, artwork(item));
    if let Some(url) = artwork(item) {
        law_cover_tag_decodes(url);
    }
}

/// An item describes a track exactly where it has a numeric id and offers a progressive
/// transcoding.
pub proof fn law_tracks_are_progressive(item: Json)
    ensures
        described_track(item) is Some <==> unsigned_of(item.entry("id"@)) is Some
            && has_progressive(item),
{
}

/// The transcoding says that its protocol is `progressive`.
pub open spec fn says_progressive(tc: Json) -> bool {
    exists|format: Json, p: String| #[trigger]
        holds(tc, "format"@, format) && #[trigger] holds(format, "protocol"@, Json::Text(p)) && p@
            == "progressive"@
}

/// The list of transcodings stands in the item, under `transcodings` of `media`.
pub open spec fn offers(item: Json, list: Vec<Json>) -> bool {
    exists|media: Json| #[trigger]
        holds(item, "media"@, media) && holds(media, "transcodings"@, Json::Array(list))
}

/// A transcoding is progressive exactly where it says so.
pub proof fn law_progressive_is_what_the_format_says(tc: Json)
    ensures
        is_progressive(tc) <==> says_progressive(tc),
{
    law_nested_entry_is_what_is_held(tc, "format"@, "protocol"@);
    let held = tc.nested("format"@, "protocol"@);
    if is_progressive(tc) {
        let format = choose|format: Json| #[trigger]
            holds(tc, "format"@, format) && holds(format, "protocol"@, held->0);
        let p = held->0->Text_0;
        assert(holds(format, "protocol"@, Json::Text(p)));
    }
    if says_progressive(tc) {
        let (format, p) = choose|format: Json, p: String| #[trigger]
            holds(tc, "format"@, format) && #[trigger] holds(format, "protocol"@, Json::Text(p))
                && p@ == "progressive"@;
        assert(held == Some(Json::Text(p)));
    }
}

/// The transcodings of an item are those that it offers, and an item that offers no list has
/// none.
pub proof fn law_transcodings_are_what_is_offered(item: Json)
    ensures
        match transcodings(item) {
            Some(list) => exists|v: Vec<Json>| #[trigger] offers(item, v) && v@ == list,
            None => forall|v: Vec<Json>| !#[trigger] offers(item, v),
        },
        forall|v: Vec<Json>| #[trigger] offers(item, v) ==> transcodings(item) == Some(v@),
{
    law_nested_entry_is_what_is_held(item, "media"@, "transcodings"@);
    let held = item.nested("media"@, "transcodings"@);
    if let Some(Json::Array(v)) = held {
        assert(offers(item, v));
    }
    assert forall|v: Vec<Json>| #[trigger] offers(item, v) implies transcodings(item) == Some(
        v@,
    ) by {
        let media = choose|media: Json| #[trigger]
            holds(item, "media"@, media) && holds(media, "transcodings"@, Json::Array(v));
        assert(held == Some(Json::Array(v)));
    }
}

/// An item is a track exactly where an unsigned number stands under `id` and one of the
/// transcodings that it offers says that it is progressive.
pub proof fn law_track_needs_id_and_progressive(item: Json)
    ensures
        described_track(item) is Some <==> (exists|id: u64| #[trigger]
            holds(item, "id"@, Json::Unsigned(id))) && (exists|list: Vec<Json>, i: int|
            {
                &&& #[trigger] offers(item, list)
                &&& 0 <= i < list@.len()
                &&& says_progressive(#[trigger] list@[i])
            }),
{
    law_entry_is_what_the_object_holds(item, "id"@);
    law_transcodings_are_what_is_offered(item);
    assert forall|tc: Json| #[trigger] is_progressive(tc) == says_progressive(tc) by {
        law_progressive_is_what_the_format_says(tc);
    }
    if let Some(Json::Unsigned(id)) = item.entry("id"@) {
        assert(holds(item, "id"@, Json::Unsigned(id)));
    }
    if has_progressive(item) {
        let i = choose|i: int|
            0 <= i < transcodings(item)->0.len() && is_progressive(
                #[trigger] transcodings(item)->0[i],
            );
        let list = choose|v: Vec<Json>| #[trigger]
            offers(item, v) && v@ == transcodings(item)->0;
        assert(offers(item, list) && says_progressive(list@[i]));
    }
    if exists|list: Vec<Json>, i: int|
        {
            &&& #[trigger] offers(item, list)
            &&& 0 <= i < list@.len()
            &&& says_progressive(#[trigger] list@[i])
        } {
        let (list, i) = choose|list: Vec<Json>, i: int|
            {
                &&& #[trigger] offers(item, list)
                &&& 0 <= i < list@.len()
                &&& says_progressive(#[trigger] list@[i])
            };
        assert(is_progressive(transcodings(item)->0[i]));
    }
}

/// The title of a track is the string under `title`, all of it.
pub proof fn law_track_has_its_whole_title(item: Json, title: String)
    requires
        described_track(item) is Some,
        holds(item, "title"@, Json::Text(title)),
    ensures
        described_track(item)->0.title == title@,
{
    law_entry_is_what_the_object_holds(item, "title"@);
}

/// A track without a string under `title` has an empty title.
pub proof fn law_track_without_title(item: Json)
    requires
        described_track(item) is Some,
        no_string(item, "title"@),
    ensures
        described_track(item)->0.title.len() == 0,
{
    law_entry_is_what_the_object_holds(item, "title"@);
    if let Some(Json::Text(s)) = item.entry("title"@) {
        assert(holds(item, "title"@, Json::Text(s)));
    }
}

/// The artist of a track is the string under `username` of `user`, all of it. It is the one
/// artist in the list of artists, unless it is empty.
pub proof fn law_track_has_its_whole_artist(item: Json, user: Json, name: String)
    requires
        described_track(item) is Some,
        holds(item, "user"@, user),
        holds(user, "username"@, Json::Text(name)),
    ensures
        described_track(item)->0.artist == name@,
        name@.len() > 0 ==> described_track(item)->0.artists == seq![name@],
        name@.len() == 0 ==> described_track(item)->0.artists.len() == 0,
{
    law_nested_entry_is_what_is_held(item, "user"@, "username"@);
    assert(item.nested("user"@, "username"@) == Some(Json::Text(name)));
}

/// A track without a string under `username` of `user` has an empty artist, and no artists.
pub proof fn law_track_without_artist(item: Json)
    requires
        described_track(item) is Some,
        no_nested_string(item, "user"@, "username"@),
    ensures
        described_track(item)->0.artist.len() == 0,
        described_track(item)->0.artists.len() == 0,
{
    law_nested_entry_is_what_is_held(item, "user"@, "username"@);
    if let Some(Json::Text(s)) = item.nested("user"@, "username"@) {
        let o = choose|o: Json| #[trigger]
            holds(item, "user"@, o) && holds(o, "username"@, Json::Text(s));
        assert(holds(o, "username"@, Json::Text(s)));
    }
}

/// The duration of a track is the number of whole seconds in the milliseconds under
/// `full_duration`, or else in those under `duration`, or else none.
pub proof fn law_track_duration_is_whole_seconds(item: Json, ms: u64)
    requires
        described_track(item) is Some,
    ensures
        ({
            let d = described_track(item)->0.duration as int;
            &&& holds(item, "full_duration"@, Json::Unsigned(ms)) ==> 1000 * d <= ms < 1000 * d
                + 1000
            &&& no_number(item, "full_duration"@) && holds(
                item,
                "duration"@,
                Json::Unsigned(ms),
            ) ==> 1000 * d <= ms < 1000 * d + 1000
            &&& no_number(item, "full_duration"@) && no_number(item, "duration"@) ==> d == 0
        }),
{
    law_entry_is_what_the_object_holds(item, "full_duration"@);
    law_entry_is_what_the_object_holds(item, "duration"@);
    if let Some(Json::Unsigned(n)) = item.entry("full_duration"@) {
        assert(holds(item, "full_duration"@, Json::Unsigned(n)));
    }
    if let Some(Json::Unsigned(n)) = item.entry("duration"@) {
        assert(holds(item, "duration"@, Json::Unsigned(n)));
    }
}

/// What the catalog does not tell of a track stays empty.
pub proof fn law_track_leaves_the_rest_empty(item: Json)
    requires
        described_track(item) is Some,
    ensures
        ({
            let t = described_track(item)->0;
            &&& t.album.len() == 0
            &&& t.khz == 0 && t.bitrate == 0
            &&& t.track_number is None && t.disc_number is None
            &&& t.musicbrainz_release_id is None
            &&& t.musicbrainz_recording_id is None
            &&& t.musicbrainz_track_id is None
            &&& t.playlist_item_id is None
        }),
{
}

/// The path of a track is `soundcloud:`, its id in decimal, a colon and the tag of the upscaled
/// artwork; the album id is the same with an underscore for the id.
pub open spec fn shows(t: TrackView, id: u64, art: Seq<char>) -> bool {
    &&& t.path == "soundcloud:"@ + decimal(id as nat) + ":"@ + cover_tag(upscaled(art))
    &&& t.album_id == "soundcloud:_:"@ + cover_tag(upscaled(art))
}

/// The path of a track is `soundcloud:` and its id in decimal, and the album id has an
/// underscore for the id.
pub open spec fn shows_nothing(t: TrackView, id: u64) -> bool {
    &&& t.path == "soundcloud:"@ + decimal(id as nat)
    &&& t.album_id == "soundcloud:_"@
}

/// The parts of a tagged text, written in one.
proof fn lemma_tagged(id: Seq<char>)
    ensures
        forall|url: Seq<char>| #[trigger]
            tagged(id, Some(url)) == "soundcloud:"@ + id + ":"@ + cover_tag(url),
        tagged(id, None) == "soundcloud:"@ + id,
        forall|url: Seq<char>| #[trigger]
            tagged("_"@, Some(url)) == "soundcloud:_:"@ + cover_tag(url),
        tagged("_"@, None) == "soundcloud:_"@,
{
    reveal_strlit("soundcloud");
    reveal_strlit("soundcloud:");
    reveal_strlit("soundcloud:_");
    reveal_strlit("soundcloud:_:");
    reveal_strlit(":");
    reveal_strlit("_");
    assert(SOURCE_PREFIX@ + ":"@ =~= "soundcloud:"@);
    assert("soundcloud:"@ + "_"@ =~= "soundcloud:_"@);
    assert("soundcloud:_"@ + ":"@ =~= "soundcloud:_:"@);
}

/// The artwork of a track is the string under `artwork_url`. An empty one means no artwork at
/// all.
pub proof fn law_track_shows_its_artwork(item: Json, id: u64, art: String)
    requires
        described_track(item) is Some,
        holds(item, "id"@, Json::Unsigned(id)),
        holds(item, "artwork_url"@, Json::Text(art)),
    ensures
        art@.len() > 0 ==> shows(described_track(item)->0, id, art@),
        art@.len() == 0 ==> shows_nothing(described_track(item)->0, id),
{
    law_entry_is_what_the_object_holds(item, "id"@);
    law_entry_is_what_the_object_holds(item, "artwork_url"@);
    lemma_tagged(decimal(id as nat));
}

/// Without a string under `artwork_url`, the artwork is the string under `avatar_url` of `user`,
/// unless it is empty.
pub proof fn law_track_shows_the_avatar(item: Json, id: u64, user: Json, avatar: String)
    requires
        described_track(item) is Some,
        holds(item, "id"@, Json::Unsigned(id)),
        no_string(item, "artwork_url"@),
        holds(item, "user"@, user),
        holds(user, "avatar_url"@, Json::Text(avatar)),
    ensures
        avatar@.len() > 0 ==> shows(described_track(item)->0, id, avatar@),
        avatar@.len() == 0 ==> shows_nothing(described_track(item)->0, id),
{
    law_entry_is_what_the_object_holds(item, "id"@);
    law_entry_is_what_the_object_holds(item, "artwork_url"@);
    law_nested_entry_is_what_is_held(item, "user"@, "avatar_url"@);
    assert(item.nested("user"@, "avatar_url"@) == Some(Json::Text(avatar)));
    if let Some(Json::Text(s)) = item.entry("artwork_url"@) {
        assert(holds(item, "artwork_url"@, Json::Text(s)));
    }
    lemma_tagged(decimal(id as nat));
}

/// Without either string there is no artwork.
pub proof fn law_track_without_artwork(item: Json, id: u64)
    requires
        described_track(item) is Some,
        holds(item, "id"@, Json::Unsigned(id)),
        no_string(item, "artwork_url"@),
        no_nested_string(item, "user"@, "avatar_url"@),
    ensures
        shows_nothing(described_track(item)->0, id),
{
    law_entry_is_what_the_object_holds(item, "id"@);
    law_entry_is_what_the_object_holds(item, "artwork_url"@);
    law_nested_entry_is_what_is_held(item, "user"@, "avatar_url"@);
    if let Some(Json::Text(s)) = item.entry("artwork_url"@) {
        assert(holds(item, "artwork_url"@, Json::Text(s)));
    }
    if let Some(Json::Text(s)) = item.nested("user"@, "avatar_url"@) {
        let o = choose|o: Json| #[trigger]
            holds(item, "user"@, o) && holds(o, "avatar_url"@, Json::Text(s));
        assert(holds(o, "avatar_url"@, Json::Text(s)));
    }
    lemma_tagged(decimal(id as nat));
}

/// The id segment of a path is what stands between its first colon and its second, or between
/// its only colon and its end. A path without a colon has an empty one.
pub proof fn law_id_segment_is_between_colons(
    first: Seq<char>,
    second: Seq<char>,
    rest: Seq<char>,
)
    requires
        lacks(first, ':'),
        lacks(second, ':'),
    ensures
        id_segment(first + ":"@ + second) == second,
        id_segment(first + ":"@ + second + ":"@ + rest) == second,
        id_segment(first).len() == 0,
{
    reveal_strlit(":");
    let sep = ":"@;
    let n = first.len() as int;
    let m = n + 1 + second.len();
    let short = first + sep + second;
    assert(short.subrange(0, n) =~= first);
    lemma_split_step(short, sep, 0, n);
    assert(short.subrange(n + 1, short.len() as int) =~= second);
    lemma_split_end(short, sep, n + 1);
    let long = first + sep + second + sep + rest;
    assert(long.subrange(0, n) =~= first);
    lemma_split_step(long, sep, 0, n);
    assert(long.subrange(n + 1, m) =~= second);
    lemma_split_step(long, sep, n + 1, m);
    assert(first.subrange(0, n) =~= first);
    lemma_split_end(first, sep, 0);
}

/// The view of a track has the track's own fields.
pub proof fn law_track_view_is_the_track(t: Track)
    ensures
        t@.path == t.path@,
        t@.album_id == t.album_id@,
        t@.title == t.title@,
        t@.artist == t.artist@,
        t@.album == t.album@,
        t@.duration == t.duration,
        t@.khz == t.khz,
        t@.bitrate == t.bitrate,
        t@.track_number == t.track_number,
        t@.disc_number == t.disc_number,
        t@.musicbrainz_release_id is Some <==> t.musicbrainz_release_id is Some,
        t.musicbrainz_release_id is Some ==> t@.musicbrainz_release_id->0
            == t.musicbrainz_release_id->0@,
        t@.musicbrainz_recording_id is Some <==> t.musicbrainz_recording_id is Some,
        t.musicbrainz_recording_id is Some ==> t@.musicbrainz_recording_id->0
            == t.musicbrainz_recording_id->0@,
        t@.musicbrainz_track_id is Some <==> t.musicbrainz_track_id is Some,
        t.musicbrainz_track_id is Some ==> t@.musicbrainz_track_id->0
            == t.musicbrainz_track_id->0@,
        t@.playlist_item_id is Some <==> t.playlist_item_id is Some,
        t.playlist_item_id is Some ==> t@.playlist_item_id->0 == t.playlist_item_id->0@,
        t@.artists.len() == t.artists@.len(),
        forall|i: int| 0 <= i < t.artists@.len() ==> #[trigger] t@.artists[i] == t.artists@[i]@,
{
}

/// The protocol of a transcoding is the string under `protocol` of `format`, all of it, and
/// there is none without such a string.
pub proof fn law_protocol_is_what_the_format_holds(tc: Json, format: Json, p: String)
    ensures
        holds(tc, "format"@, format) && holds(format, "protocol"@, Json::Text(p)) ==> protocol(tc)
            == Some(p@),
        no_nested_string(tc, "format"@, "protocol"@) ==> protocol(tc) is None,
{
    law_nested_entry_is_what_is_held(tc, "format"@, "protocol"@);
    if let Some(Json::Text(s)) = tc.nested("format"@, "protocol"@) {
        let o = choose|o: Json| #[trigger]
            holds(tc, "format"@, o) && holds(o, "protocol"@, Json::Text(s));
        assert(holds(o, "protocol"@, Json::Text(s)));
    }
}

} // verus!
