//! Searching the catalog.

use crate::json::{
    array_of, holds, items_of, law_entry_is_what_the_object_holds, str_of, text_of, Json,
};
use crate::request::{
    api_search, law_search_names_the_query, search_request, ApiRequest, Failure, RequestView,
};
use crate::text::{
    blank, is_blank, law_blank_is_white_space_alone, result_text, same_text, white_space_code,
};
use crate::track::{
    described_track, id_segment, law_track_id_is_catalog_id, parse_track, track_id, Track, TrackView,
};
use vstd::hash_set::StringHashSet;
use vstd::prelude::*;
use vstd::string::*;

verus! {

/// What a list of tracks holds.
pub open spec fn track_views(list: Seq<Track>) -> Seq<TrackView> {
    list.map_values(|t: Track| t@)
}

/// The track that a search result describes. Results of another kind describe none.
pub open spec fn result_track(item: Json) -> Option<TrackView> {
    if text_of(item.entry("kind"@)) == Some("track"@) {
        described_track(item)
    } else {
        None
    }
}

/// A track with this id is in the list.
pub open spec fn lists_id(list: Seq<TrackView>, id: Seq<char>) -> bool {
    exists|i: int| 0 <= i < list.len() && id_segment(#[trigger] list[i].path) == id
}

/// The tracks that some search results describe, in order, each id once: the first one
/// counts.
pub open spec fn distinct_tracks(items: Seq<Json>) -> Seq<TrackView>
    decreases items.len(),
{
    if items.len() == 0 {
        Seq::empty()
    } else {
        let before = distinct_tracks(items.drop_last());
        match result_track(items.last()) {
            Some(t) => if id_segment(t.path).len() == 0 || lists_id(before, id_segment(t.path)) {
                before
            } else {
                before.push(t)
            },
            None => before,
        }
    }
}

/// The results in the answer to a search; an answer without a collection has none.
pub open spec fn result_items(resp: Json) -> Seq<Json> {
    match items_of(resp.entry("collection"@)) {
        Some(items) => items,
        None => Seq::empty(),
    }
}

/// Reads the track that a search result describes.
fn parse_result(item: &Json) -> (r: Option<Track>)
    ensures
        match r {
            Some(t) => result_track(*item) == Some(t@),
            None => result_track(*item) is None,
        },
{
    match str_of(item.get("kind")) {
        Some(kind) => if same_text(kind, "track") {
            parse_track(item)
        } else {
            None
        },
        None => None,
    }
}

/// Reads the tracks in the answer to a search.
pub fn found_tracks(resp: &Json) -> (out: Vec<Track>)
    ensures
        track_views(out@) == distinct_tracks(result_items(*resp)),
{
    let mut out: Vec<Track> = Vec::new();
    let items = match array_of(resp.get("collection")) {
        Some(items) => items,
        None => {
            assert(track_views(out@) =~= distinct_tracks(result_items(*resp)));
            return out;
        },
    };
    let mut seen = StringHashSet::new();
    let mut i: usize = 0;
    assert(track_views(out@) =~= distinct_tracks(items@.take(0)));
    while i < items.len()
        invariant
            i <= items.len(),
            track_views(out@) == distinct_tracks(items@.take(i as int)),
            forall|id: Seq<char>| #[trigger]
                seen@.contains(id) <==> lists_id(track_views(out@), id),
        decreases items.len() - i,
    {
        let ghost before = track_views(out@);
        assert(items@.take(i + 1).drop_last() =~= items@.take(i as int));
        assert(items@.take(i + 1).last() == items@[i as int]);
        if let Some(track) = parse_result(&items[i]) {
            let id = track_id(&track);
            if !id.as_str().is_empty() && seen.insert(id) {
                out.push(track);
                let ghost after = track_views(out@);
                assert(after =~= before.push(track@));
                assert forall|other: Seq<char>| #[trigger]
                    seen@.contains(other) <==> lists_id(after, other) by {
                    if lists_id(before, other) {
                        let k = choose|k: int|
                            0 <= k < before.len() && id_segment(#[trigger] before[k].path)
                                == other;
                        assert(after[k] == before[k]);
                    }
                    if other == id@ {
                        assert(id_segment(after[before.len() as int].path) == other);
                    }
                    if lists_id(after, other) && other != id@ {
                        let k = choose|k: int|
                            0 <= k < after.len() && id_segment(#[trigger] after[k].path) == other;
                        assert(before[k] == after[k]);
                    }
                }
            }
        }
        i += 1;
    }
    assert(items@.take(items@.len() as int) =~= items@);
    out
}

/// A search that waits for a `client_id` or for the answer to its request.
pub struct SearchCall {
    pub query: String,
    /// The request was made once and failed.
    pub retried: bool,
}

/// What a search does next.
pub enum SearchStep {
    /// Get the `client_id`, a fresh one where `force` is set, and hand it to
    /// [`SearchCall::on_client_id`] of `call`.
    ClientId { force: bool, call: SearchCall },
    /// Send the request, and hand the answer to [`SearchCall::on_reply`] of `call`.
    Send { request: ApiRequest, call: SearchCall },
    /// The search is over.
    Done(Result<Vec<Track>, String>),
}

/// What a [`SearchStep`] holds, with texts as sequences of characters.
#[verifier::ext_equal]
pub enum SearchStepView {
    ClientId { force: bool, query: Seq<char>, retried: bool },
    Send { request: RequestView, query: Seq<char>, retried: bool },
    Done(Result<Seq<TrackView>, Seq<char>>),
}

impl View for SearchStep {
    type V = SearchStepView;

    open spec fn view(&self) -> SearchStepView {
        match *self {
            SearchStep::ClientId { force, call } => SearchStepView::ClientId {
                force,
                query: call.query@,
                retried: call.retried,
            },
            SearchStep::Send { request, call } => SearchStepView::Send {
                request: request@,
                query: call.query@,
                retried: call.retried,
            },
            SearchStep::Done(Ok(tracks)) => SearchStepView::Done(Ok(track_views(tracks@))),
            SearchStep::Done(Err(e)) => SearchStepView::Done(Err(e@)),
        }
    }
}

/// A blank query finds nothing and asks nobody; any other needs a `client_id` first.
pub open spec fn search_start(query: Seq<char>) -> SearchStepView {
    if blank(query) {
        SearchStepView::Done(Ok(Seq::empty()))
    } else {
        SearchStepView::ClientId { force: false, query, retried: false }
    }
}

/// With a `client_id` the request goes out; without one the search fails.
pub open spec fn search_with_id(
    query: Seq<char>,
    retried: bool,
    id: Result<Seq<char>, Seq<char>>,
) -> SearchStepView {
    match id {
        Ok(id) => SearchStepView::Send { request: search_request(query, id), query, retried },
        Err(e) => SearchStepView::Done(Err(e)),
    }
}

/// An answer ends the search. The first failure asks for a fresh `client_id`, the second ends
/// the search.
pub open spec fn search_with_reply(
    query: Seq<char>,
    retried: bool,
    reply: Result<Json, Failure>,
) -> SearchStepView {
    match reply {
        Ok(resp) => SearchStepView::Done(Ok(distinct_tracks(result_items(resp)))),
        Err(failure) => if retried {
            SearchStepView::Done(Err(failure.message@))
        } else {
            SearchStepView::ClientId { force: true, query, retried: true }
        },
    }
}

/// Starts a search of the catalog for tracks that match `query`.
pub fn search_tracks(query: &str) -> (step: SearchStep)
    ensures
        step@ == search_start(query@),
{
    if is_blank(query) {
        let none: Vec<Track> = Vec::new();
        assert(track_views(none@) =~= Seq::empty());
        SearchStep::Done(Ok(none))
    } else {
        SearchStep::ClientId {
            force: false,
            call: SearchCall { query: query.to_string(), retried: false },
        }
    }
}

impl SearchCall {
    /// Takes the `client_id` that the search asked for.
    pub fn on_client_id(self, id: Result<String, String>) -> (step: SearchStep)
        ensures
            step@ == search_with_id(self.query@, self.retried, result_text(id)),
    {
        match id {
            Ok(id) => {
                let request = api_search(self.query.as_str(), id.as_str());
                SearchStep::Send { request, call: self }
            },
            Err(e) => SearchStep::Done(Err(e)),
        }
    }

    /// Takes the answer to the request.
    pub fn on_reply(self, reply: Result<Json, Failure>) -> (step: SearchStep)
        ensures
            step@ == search_with_reply(self.query@, self.retried, reply),
    {
        match reply {
            Ok(resp) => SearchStep::Done(Ok(found_tracks(&resp))),
            Err(failure) => if self.retried {
                SearchStep::Done(Err(failure.message))
            } else {
                SearchStep::ClientId {
                    force: true,
                    call: SearchCall { query: self.query, retried: true },
                }
            },
        }
    }
}

/// `picked` are positions, in order, of results that describe the tracks of `out`, and no
/// result before such a position describes a track with the same id.
pub open spec fn picks_firsts(items: Seq<Json>, out: Seq<TrackView>, picked: Seq<int>) -> bool {
    &&& picked.len() == out.len()
    &&& forall|k: int|
        0 <= k < out.len() ==> 0 <= #[trigger] picked[k] < items.len() && result_track(
            items[picked[k]],
        ) == Some(out[k])
    &&& forall|j: int, k: int| 0 <= j < k < out.len() ==> #[trigger] picked[j] < #[trigger] picked[k]
    &&& forall|k: int, j: int|
        #![trigger picked[k], items[j]]
        0 <= k < out.len() && 0 <= j < picked[k] ==> match result_track(items[j]) {
            Some(t) => id_segment(t.path) != id_segment(out[k].path),
            None => true,
        }
}

/// A search lists every track that some result describes, and each id once: in the order of
/// the results, by the first result with that id.
pub proof fn law_search_lists_each_track_once(items: Seq<Json>)
    ensures
        forall|i: int|
            0 <= i < items.len() && result_track(#[trigger] items[i]) is Some ==> lists_id(
                distinct_tracks(items),
                id_segment(result_track(items[i])->0.path),
            ),
        forall|j: int, k: int|
            0 <= j < k < distinct_tracks(items).len() ==> id_segment(
                #[trigger] distinct_tracks(items)[j].path,
            ) != id_segment(#[trigger] distinct_tracks(items)[k].path),
        exists|picked: Seq<int>| picks_firsts(items, distinct_tracks(items), picked),
    decreases items.len(),
{
    let out = distinct_tracks(items);
    if items.len() == 0 {
        assert(picks_firsts(items, out, Seq::empty()));
    } else {
        let n = items.len() - 1;
        let older = items.drop_last();
        let before = distinct_tracks(older);
        law_search_lists_each_track_once(older);
        let picked = choose|picked: Seq<int>| picks_firsts(older, before, picked);
        assert forall|i: int|
            0 <= i < items.len() && result_track(#[trigger] items[i]) is Some implies lists_id(
            out,
            id_segment(result_track(items[i])->0.path),
        ) by {
            let id = id_segment(result_track(items[i])->0.path);
            law_track_id_is_catalog_id(items[i]);
            if i < n {
                assert(older[i] == items[i]);
                assert(lists_id(before, id));
            }
            if lists_id(before, id) {
                let k = choose|k: int|
                    0 <= k < before.len() && id_segment(#[trigger] before[k].path) == id;
                assert(out[k] == before[k]);
            } else {
                assert(id_segment(out[before.len() as int].path) == id);
            }
        }
        if out == before {
            assert forall|k: int, j: int|
                #![trigger picked[k], items[j]]
                0 <= k < out.len() && 0 <= j < picked[k] implies match result_track(items[j]) {
                Some(t) => id_segment(t.path) != id_segment(out[k].path),
                None => true,
            } by {
                assert(older[j] == items[j]);
            }
            assert(picks_firsts(items, out, picked));
        } else {
            let t = result_track(items[n])->0;
            let all = picked.push(n);
            assert(out == before.push(t));
            assert forall|j: int, k: int| 0 <= j < k < out.len() implies id_segment(
                #[trigger] out[j].path,
            ) != id_segment(#[trigger] out[k].path) by {
                assert(out[j] == before[j]);
                if k < before.len() {
                    assert(out[k] == before[k]);
                }
            }
            assert forall|k: int, j: int|
                #![trigger all[k], items[j]]
                0 <= k < out.len() && 0 <= j < all[k] implies match result_track(items[j]) {
                Some(u) => id_segment(u.path) != id_segment(out[k].path),
                None => true,
            } by {
                assert(older[j] == items[j]);
                if k < before.len() {
                    assert(all[k] == picked[k]);
                } else if result_track(items[j]) is Some {
                    assert(lists_id(before, id_segment(result_track(items[j])->0.path)));
                }
            }
            assert(picks_firsts(items, out, all));
        }
    }
}

/// How a search ends from a step on, where the `client_id`s and the answers that it asks for
/// come from two lists. It has not ended where a list runs out.
pub open spec fn search_run(
    step: SearchStepView,
    ids: Seq<Result<Seq<char>, Seq<char>>>,
    replies: Seq<Result<Json, Failure>>,
) -> Option<Result<Seq<TrackView>, Seq<char>>>
    decreases ids.len() + replies.len(),
{
    match step {
        SearchStepView::Done(r) => Some(r),
        SearchStepView::ClientId { force, query, retried } => if ids.len() == 0 {
            None
        } else {
            search_run(search_with_id(query, retried, ids[0]), ids.drop_first(), replies)
        },
        SearchStepView::Send { request, query, retried } => if replies.len() == 0 {
            None
        } else {
            search_run(search_with_reply(query, retried, replies[0]), ids, replies.drop_first())
        },
    }
}

/// A blank query finds nothing, without a `client_id` and without a request.
pub proof fn law_blank_query_asks_nobody(query: Seq<char>)
    requires
        blank(query),
    ensures
        search_run(search_start(query), Seq::empty(), Seq::empty()) == Some(
            Ok::<Seq<TrackView>, Seq<char>>(Seq::empty()),
        ),
{
}

/// The tracks in an answer, or the message of a failure.
pub open spec fn reply_outcome(reply: Result<Json, Failure>) -> Result<Seq<TrackView>, Seq<char>> {
    match reply {
        Ok(resp) => Ok(distinct_tracks(result_items(resp))),
        Err(failure) => Err(failure.message@),
    }
}

/// A search is tried at most twice. The first answer counts where there is one; a failure
/// leads to one more try with another `client_id`, and that one decides.
pub proof fn law_search_is_tried_twice(
    query: Seq<char>,
    ids: Seq<Result<Seq<char>, Seq<char>>>,
    replies: Seq<Result<Json, Failure>>,
)
    requires
        !blank(query),
        ids.len() == 2,
        replies.len() == 2,
    ensures
        search_run(search_start(query), ids, replies) == Some(
            match ids[0] {
                Err(e) => Err(e),
                Ok(_) => match (replies[0], ids[1]) {
                    (Ok(_), _) => reply_outcome(replies[0]),
                    (Err(_), Err(e)) => Err(e),
                    (Err(_), Ok(_)) => reply_outcome(replies[1]),
                },
            },
        ),
{
    reveal_with_fuel(search_run, 5);
}

/// A search asks for a fresh `client_id` after its first failure, a 4xx status or any other,
/// and never again.
pub proof fn law_failed_search_forces_client_id(query: Seq<char>, failure: Failure)
    ensures
        search_with_reply(query, false, Err(failure)) == (SearchStepView::ClientId {
            force: true,
            query,
            retried: true,
        }),
        search_with_reply(query, true, Err(failure)) == SearchStepView::Done(
            Err(failure.message@),
        ),
{
}

/// A query with a character that is not white space is searched for: the search asks for a
/// `client_id`, with the query as it is.
pub proof fn law_query_with_a_visible_character_is_searched(query: Seq<char>, i: int)
    requires
        0 <= i < query.len(),
        !white_space_code(query[i] as int),
    ensures
        search_start(query) == (SearchStepView::ClientId { force: false, query, retried: false }),
{
    law_blank_is_white_space_alone(query);
}

/// A query of white space alone finds nothing at once.
pub proof fn law_query_of_white_space_is_not_searched(query: Seq<char>)
    requires
        forall|i: int| 0 <= i < query.len() ==> white_space_code(#[trigger] query[i] as int),
    ensures
        search_start(query) matches SearchStepView::Done(Ok(tracks)) && tracks.len() == 0,
{
    law_blank_is_white_space_alone(query);
}

/// With a `client_id`, the search sends the query in the parameter `q`, all of it, and that id;
/// without one it ends with the message that came instead.
pub proof fn law_search_sends_its_query(
    query: Seq<char>,
    retried: bool,
    id: Seq<char>,
    message: Seq<char>,
)
    ensures
        search_with_id(query, retried, Ok(id)) matches SearchStepView::Send {
            request,
            query: kept,
            retried: again,
        } && kept == query && again == retried && request.url
            == "https://api-v2.soundcloud.com/search/tracks"@ && request.query.len() == 3
            && request.query[0] == ("q"@, query) && request.query[1] == ("client_id"@, id)
            && request.query[2] == ("limit"@, "50"@),
        search_with_id(query, retried, Err(message)) == SearchStepView::Done(Err(message)),
{
    law_search_names_the_query(query, id);
}

/// The search result says that it is a track, and describes this one.
pub open spec fn presents(item: Json, t: TrackView) -> bool {
    described_track(item) == Some(t) && exists|kind: String| #[trigger]
        holds(item, "kind"@, Json::Text(kind)) && kind@ == "track"@
}

/// A search result gives a track exactly where it presents one.
pub proof fn law_result_track_is_presented(item: Json, t: TrackView)
    ensures
        result_track(item) == Some(t) <==> presents(item, t),
{
    law_entry_is_what_the_object_holds(item, "kind"@);
    if let Some(Json::Text(kind)) = item.entry("kind"@) {
        assert(holds(item, "kind"@, Json::Text(kind)));
    }
}

/// The results are the items of the array under `collection`, and an answer without such an
/// array has none.
pub proof fn law_results_are_the_collection(resp: Json, items: Vec<Json>)
    ensures
        holds(resp, "collection"@, Json::Array(items)) ==> result_items(resp) == items@,
        (forall|v: Vec<Json>| !#[trigger] holds(resp, "collection"@, Json::Array(v)))
            ==> result_items(resp).len() == 0,
{
    law_entry_is_what_the_object_holds(resp, "collection"@);
    if let Some(Json::Array(v)) = resp.entry("collection"@) {
        assert(holds(resp, "collection"@, Json::Array(v)));
    }
}

/// An answer ends the search with tracks that the collection presents: every id that it
/// presents, each once, in the order of the collection, and of two results with the same id
/// the first.
pub proof fn law_search_answers_with_the_collection(
    query: Seq<char>,
    retried: bool,
    resp: Json,
    items: Vec<Json>,
)
    requires
        holds(resp, "collection"@, Json::Array(items)),
    ensures
        search_with_reply(query, retried, Ok(resp)) matches SearchStepView::Done(Ok(tracks)) && {
            &&& forall|i: int, t: TrackView|
                0 <= i < items@.len() && #[trigger] presents(items@[i], t) ==> exists|k: int|
                    0 <= k < tracks.len() && id_segment(#[trigger] tracks[k].path) == id_segment(
                        t.path,
                    )
            &&& forall|j: int, k: int|
                0 <= j < k < tracks.len() ==> id_segment(#[trigger] tracks[j].path) != id_segment(
                    #[trigger] tracks[k].path,
                )
            &&& exists|picked: Seq<int>|
                {
                    &&& picked.len() == tracks.len()
                    &&& forall|k: int|
                        0 <= k < tracks.len() ==> 0 <= #[trigger] picked[k] < items@.len()
                            && presents(items@[picked[k]], tracks[k])
                    &&& forall|j: int, k: int|
                        0 <= j < k < tracks.len() ==> #[trigger] picked[j] < #[trigger] picked[k]
                    &&& forall|k: int, j: int, t: TrackView|
                        0 <= k < tracks.len() && 0 <= j < #[trigger] picked[k]
                            && #[trigger] presents(items@[j], t) ==> id_segment(t.path)
                            != id_segment(tracks[k].path)
                }
        },
{
    law_results_are_the_collection(resp, items);
    let tracks = distinct_tracks(items@);
    law_search_lists_each_track_once(items@);
    assert forall|item: Json, t: TrackView| #[trigger] presents(item, t) == (result_track(item)
        == Some(t)) by {
        law_result_track_is_presented(item, t);
    }
    assert forall|i: int, t: TrackView|
        0 <= i < items@.len() && #[trigger] presents(items@[i], t) implies exists|k: int|
        0 <= k < tracks.len() && id_segment(#[trigger] tracks[k].path) == id_segment(t.path) by {
        assert(lists_id(tracks, id_segment(t.path)));
    }
    let picked = choose|picked: Seq<int>| picks_firsts(items@, tracks, picked);
    assert forall|k: int| 0 <= k < tracks.len() implies 0 <= #[trigger] picked[k] < items@.len()
        && presents(items@[picked[k]], tracks[k]) by {}
    assert forall|k: int, j: int, t: TrackView|
        0 <= k < tracks.len() && 0 <= j < #[trigger] picked[k] && #[trigger] presents(
            items@[j],
            t,
        ) implies id_segment(t.path) != id_segment(tracks[k].path) by {
        assert(result_track(items@[j]) == Some(t));
    }
    assert(picked.len() == tracks.len());
}

/// An answer without a collection ends the search with no tracks.
pub proof fn law_search_without_collection_finds_nothing(
    query: Seq<char>,
    retried: bool,
    resp: Json,
)
    requires
        forall|v: Vec<Json>| !#[trigger] holds(resp, "collection"@, Json::Array(v)),
    ensures
        search_with_reply(query, retried, Ok(resp)) matches SearchStepView::Done(Ok(tracks))
            && tracks.len() == 0,
{
    law_entry_is_what_the_object_holds(resp, "collection"@);
    if let Some(Json::Array(v)) = resp.entry("collection"@) {
        assert(holds(resp, "collection"@, Json::Array(v)));
    }
}

/// The view of a step has the step's own texts and tracks.
pub proof fn law_search_step_view_is_the_step(
    force: bool,
    request: ApiRequest,
    call: SearchCall,
    tracks: Vec<Track>,
    message: String,
)
    ensures
        (SearchStep::ClientId { force, call })@ == (SearchStepView::ClientId {
            force,
            query: call.query@,
            retried: call.retried,
        }),
        (SearchStep::Send { request, call })@ == (SearchStepView::Send {
            request: request@,
            query: call.query@,
            retried: call.retried,
        }),
        SearchStep::Done(Ok(tracks))@ matches SearchStepView::Done(Ok(views)) && views.len()
            == tracks@.len() && forall|i: int|
            0 <= i < views.len() ==> #[trigger] views[i] == tracks@[i]@,
        SearchStep::Done(Err(message))@ == SearchStepView::Done(
            Err::<Seq<TrackView>, Seq<char>>(message@),
        ),
        track_views(tracks@).len() == tracks@.len(),
        forall|i: int| 0 <= i < tracks@.len() ==> #[trigger] track_views(tracks@)[i] == tracks@[i]@,
{
}

} // verus!
