//! From a track id to the URL of its file.

use crate::json::{
    array_of, holds, law_entry_is_what_the_object_holds, no_string, str_of, text_of, Json,
};
use crate::request::{
    law_lookup_names_the_track, law_stream_request_goes_to_the_transcoding, lookup_request,
    lookup_track, stream_lookup, stream_request, ApiRequest, Failure, RequestView,
};
use crate::text::{optional_text, result_text};
use crate::track::{
    described_track, first_progressive, is_progressive, law_progressive_is_what_the_format_says,
    law_transcodings_are_what_is_offered, lemma_progressive_from, offers, progressive_from,
    says_progressive, transcodings,
};
use vstd::prelude::*;
use vstd::string::*;

verus! {

/// Where to ask for the file of a track.
pub struct StreamTarget {
    pub url: String,
    pub track_authorization: Option<String>,
}

/// What a [`StreamTarget`] holds, with texts as sequences of characters.
#[verifier::ext_equal]
pub struct TargetView {
    pub url: Seq<char>,
    pub track_authorization: Option<Seq<char>>,
}

impl View for StreamTarget {
    type V = TargetView;

    open spec fn view(&self) -> TargetView {
        TargetView {
            url: self.url@,
            track_authorization: optional_text(self.track_authorization),
        }
    }
}

/// The message for a track that offers nothing to stream.
pub open spec fn no_media_message() -> Seq<char> {
    "SoundCloud track exposes no media transcodings"@
}

/// The message for a track that offers no plain file.
pub open spec fn no_progressive_message() -> Seq<char> {
    "SoundCloud track has no progressive (non-HLS) stream"@
}

/// The message for a transcoding without a file.
pub open spec fn no_stream_message() -> Seq<char> {
    "SoundCloud returned no stream URL for this track"@
}

/// The URL of the first progressive transcoding.
pub open spec fn progressive_url(list: Seq<Json>) -> Option<Seq<char>> {
    match progressive_from(list, 0) {
        Some(i) => text_of(list[i].entry("url"@)),
        None => None,
    }
}

/// Where to ask for the file of a track that was looked up.
pub open spec fn target_of(track: Json) -> Result<TargetView, Seq<char>> {
    match transcodings(track) {
        None => Err(no_media_message()),
        Some(list) => match progressive_url(list) {
            None => Err(no_progressive_message()),
            Some(url) => Ok(
                TargetView {
                    url,
                    track_authorization: text_of(track.entry("track_authorization"@)),
                },
            ),
        },
    }
}

/// The URL of the file in the answer of a transcoding. An empty one counts as none.
pub open spec fn file_url(resolved: Json) -> Result<Seq<char>, Seq<char>> {
    match text_of(resolved.entry("url"@)) {
        Some(url) => if url.len() == 0 {
            Err(no_stream_message())
        } else {
            Ok(url)
        },
        None => Err(no_stream_message()),
    }
}

/// Reads where to ask for the file of a track that was looked up.
pub fn stream_target(track: &Json) -> (r: Result<StreamTarget, String>)
    ensures
        match r {
            Ok(t) => target_of(*track) == Ok::<TargetView, Seq<char>>(t@),
            Err(e) => target_of(*track) == Err::<TargetView, Seq<char>>(e@),
        },
{
    let list = match array_of(track.get_nested("media", "transcodings")) {
        Some(list) => list,
        None => return Err("SoundCloud track exposes no media transcodings".to_string()),
    };
    let url = match first_progressive(list) {
        Some(i) => str_of(list[i].get("url")),
        None => None,
    };
    match url {
        Some(url) => {
            let track_authorization = match str_of(track.get("track_authorization")) {
                Some(auth) => Some(auth.to_string()),
                None => None,
            };
            Ok(StreamTarget { url: url.to_string(), track_authorization })
        },
        None => Err("SoundCloud track has no progressive (non-HLS) stream".to_string()),
    }
}

/// Reads the URL of the file in the answer of a transcoding.
pub fn stream_url(resolved: &Json) -> (r: Result<String, String>)
    ensures
        result_text(r) == file_url(*resolved),
{
    match str_of(resolved.get("url")) {
        Some(url) => if url.is_empty() {
            Err("SoundCloud returned no stream URL for this track".to_string())
        } else {
            Ok(url.to_string())
        },
        None => Err("SoundCloud returned no stream URL for this track".to_string()),
    }
}

/// How far a resolution has come.
pub enum Phase {
    /// The track is looked up.
    Lookup { track_id: String },
    /// The file is asked for.
    Stream { target: StreamTarget },
}

/// What a [`Phase`] holds, with texts as sequences of characters.
#[verifier::ext_equal]
pub enum PhaseView {
    Lookup { track_id: Seq<char> },
    Stream { target: TargetView },
}

impl View for Phase {
    type V = PhaseView;

    open spec fn view(&self) -> PhaseView {
        match *self {
            Phase::Lookup { track_id } => PhaseView::Lookup { track_id: track_id@ },
            Phase::Stream { target } => PhaseView::Stream { target: target@ },
        }
    }
}

/// A resolution that waits for a `client_id` or for the answer to a request.
pub struct ResolveCall {
    pub phase: Phase,
    /// The request of this phase was made once and failed.
    pub retried: bool,
}

/// What a resolution does next.
pub enum ResolveStep {
    /// Get the `client_id`, a fresh one where `force` is set, and hand it to
    /// [`ResolveCall::on_client_id`] of `call`.
    ClientId { force: bool, call: ResolveCall },
    /// Send the request, and hand the answer to [`ResolveCall::on_reply`] of `call`.
    Send { request: ApiRequest, call: ResolveCall },
    /// The resolution is over.
    Done(Result<String, String>),
}

/// What a [`ResolveStep`] holds, with texts as sequences of characters.
#[verifier::ext_equal]
pub enum ResolveStepView {
    ClientId { force: bool, phase: PhaseView, retried: bool },
    Send { request: RequestView, phase: PhaseView, retried: bool },
    Done(Result<Seq<char>, Seq<char>>),
}

impl View for ResolveStep {
    type V = ResolveStepView;

    open spec fn view(&self) -> ResolveStepView {
        match *self {
            ResolveStep::ClientId { force, call } => ResolveStepView::ClientId {
                force,
                phase: call.phase@,
                retried: call.retried,
            },
            ResolveStep::Send { request, call } => ResolveStepView::Send {
                request: request@,
                phase: call.phase@,
                retried: call.retried,
            },
            ResolveStep::Done(r) => ResolveStepView::Done(result_text(r)),
        }
    }
}

/// A resolution starts with the lookup, which needs a `client_id` first.
pub open spec fn resolve_start(track_id: Seq<char>) -> ResolveStepView {
    ResolveStepView::ClientId {
        force: false,
        phase: PhaseView::Lookup { track_id },
        retried: false,
    }
}

/// The request of a phase.
pub open spec fn phase_request(phase: PhaseView, id: Seq<char>) -> RequestView {
    match phase {
        PhaseView::Lookup { track_id } => lookup_request(track_id, id),
        PhaseView::Stream { target } => stream_request(target.url, target.track_authorization, id),
    }
}

/// With a `client_id` the request of the phase goes out; without one the resolution fails.
pub open spec fn resolve_with_id(
    phase: PhaseView,
    retried: bool,
    id: Result<Seq<char>, Seq<char>>,
) -> ResolveStepView {
    match id {
        Ok(id) => ResolveStepView::Send { request: phase_request(phase, id), phase, retried },
        Err(e) => ResolveStepView::Done(Err(e)),
    }
}

/// The request is worth a second try with a fresh `client_id`. A lookup is, whatever failed;
/// the request for the file is where the answer blames the request.
pub open spec fn worth_retry(phase: PhaseView, retried: bool, failure: Failure) -> bool {
    !retried && (phase is Lookup || failure.blames_request())
}

/// The answer to the lookup leads to the request for the file, and the answer to that one
/// ends the resolution. A failure leads to a second try or ends it.
pub open spec fn resolve_with_reply(
    phase: PhaseView,
    retried: bool,
    reply: Result<Json, Failure>,
) -> ResolveStepView {
    match reply {
        Ok(answer) => match phase {
            PhaseView::Lookup { .. } => match target_of(answer) {
                Ok(target) => ResolveStepView::ClientId {
                    force: false,
                    phase: PhaseView::Stream { target },
                    retried: false,
                },
                Err(e) => ResolveStepView::Done(Err(e)),
            },
            PhaseView::Stream { .. } => ResolveStepView::Done(file_url(answer)),
        },
        Err(failure) => if worth_retry(phase, retried, failure) {
            ResolveStepView::ClientId { force: true, phase, retried: true }
        } else {
            ResolveStepView::Done(Err(failure.message@))
        },
    }
}

/// Starts to resolve a track id to the URL of the track's file.
pub fn resolve_stream(track_id: &str) -> (step: ResolveStep)
    ensures
        step@ == resolve_start(track_id@),
{
    ResolveStep::ClientId {
        force: false,
        call: ResolveCall {
            phase: Phase::Lookup { track_id: track_id.to_string() },
            retried: false,
        },
    }
}

impl ResolveCall {
    /// Takes the `client_id` that the resolution asked for.
    pub fn on_client_id(self, id: Result<String, String>) -> (step: ResolveStep)
        ensures
            step@ == resolve_with_id(self.phase@, self.retried, result_text(id)),
    {
        match id {
            Ok(id) => {
                let request = match &self.phase {
                    Phase::Lookup { track_id } => lookup_track(track_id.as_str(), id.as_str()),
                    Phase::Stream { target } => {
                        let auth = match &target.track_authorization {
                            Some(auth) => Some(auth.as_str()),
                            None => None,
                        };
                        stream_lookup(target.url.as_str(), auth, id.as_str())
                    },
                };
                ResolveStep::Send { request, call: self }
            },
            Err(e) => ResolveStep::Done(Err(e)),
        }
    }

    /// Takes the answer to the request of the phase.
    pub fn on_reply(self, reply: Result<Json, Failure>) -> (step: ResolveStep)
        ensures
            step@ == resolve_with_reply(self.phase@, self.retried, reply),
    {
        match reply {
            Ok(answer) => match self.phase {
                Phase::Lookup { .. } => match stream_target(&answer) {
                    Ok(target) => ResolveStep::ClientId {
                        force: false,
                        call: ResolveCall { phase: Phase::Stream { target }, retried: false },
                    },
                    Err(e) => ResolveStep::Done(Err(e)),
                },
                Phase::Stream { .. } => ResolveStep::Done(stream_url(&answer)),
            },
            Err(failure) => {
                let lookup = match &self.phase {
                    Phase::Lookup { .. } => true,
                    Phase::Stream { .. } => false,
                };
                if !self.retried && (lookup || failure.is_client_error()) {
                    ResolveStep::ClientId {
                        force: true,
                        call: ResolveCall { phase: self.phase, retried: true },
                    }
                } else {
                    ResolveStep::Done(Err(failure.message))
                }
            },
        }
    }
}

/// How a resolution ends from a step on, where the `client_id`s and the answers that it asks
/// for come from two lists. It has not ended where a list runs out.
pub open spec fn resolve_run(
    step: ResolveStepView,
    ids: Seq<Result<Seq<char>, Seq<char>>>,
    replies: Seq<Result<Json, Failure>>,
) -> Option<Result<Seq<char>, Seq<char>>>
    decreases ids.len() + replies.len(),
{
    match step {
        ResolveStepView::Done(r) => Some(r),
        ResolveStepView::ClientId { force, phase, retried } => if ids.len() == 0 {
            None
        } else {
            resolve_run(resolve_with_id(phase, retried, ids[0]), ids.drop_first(), replies)
        },
        ResolveStepView::Send { request, phase, retried } => if replies.len() == 0 {
            None
        } else {
            resolve_run(
                resolve_with_reply(phase, retried, replies[0]),
                ids,
                replies.drop_first(),
            )
        },
    }
}

/// How many requests a step may still lead to, the one that it waits for included.
spec fn tries_left(step: ResolveStepView) -> nat {
    match step {
        ResolveStepView::Done(_) => 0,
        ResolveStepView::ClientId { phase, retried, .. } => tries_of(phase, retried),
        ResolveStepView::Send { phase, retried, .. } => tries_of(phase, retried),
    }
}

/// Two for each phase, less the one that failed.
spec fn tries_of(phase: PhaseView, retried: bool) -> nat {
    let of_phase: nat = if phase is Lookup {
        4
    } else {
        2
    };
    if retried {
        (of_phase - 1) as nat
    } else {
        of_phase
    }
}

/// A resolution ends within the requests that it has left.
proof fn lemma_resolve_ends(
    step: ResolveStepView,
    ids: Seq<Result<Seq<char>, Seq<char>>>,
    replies: Seq<Result<Json, Failure>>,
)
    requires
        replies.len() >= tries_left(step),
        ids.len() >= tries_left(step) || step is Send && ids.len() + 1 >= tries_left(step),
    ensures
        resolve_run(step, ids, replies) is Some,
    decreases ids.len() + replies.len(),
{
    match step {
        ResolveStepView::Done(r) => {},
        ResolveStepView::ClientId { force, phase, retried } => {
            lemma_resolve_ends(
                resolve_with_id(phase, retried, ids[0]),
                ids.drop_first(),
                replies,
            );
        },
        ResolveStepView::Send { request, phase, retried } => {
            lemma_resolve_ends(
                resolve_with_reply(phase, retried, replies[0]),
                ids,
                replies.drop_first(),
            );
        },
    }
}

/// A resolution ends, whatever it is answered: at most two lookups and two requests for the
/// file.
pub proof fn law_resolution_ends(
    track_id: Seq<char>,
    ids: Seq<Result<Seq<char>, Seq<char>>>,
    replies: Seq<Result<Json, Failure>>,
)
    requires
        ids.len() >= 4,
        replies.len() >= 4,
    ensures
        resolve_run(resolve_start(track_id), ids, replies) is Some,
{
    lemma_resolve_ends(resolve_start(track_id), ids, replies);
}

/// A lookup that is answered and a request for the file that is answered give the URL that the
/// second answer holds, each with one request.
pub proof fn law_two_answers_resolve(
    track_id: Seq<char>,
    first_id: Seq<char>,
    second_id: Seq<char>,
    track: Json,
    answer: Json,
)
    requires
        target_of(track) is Ok,
    ensures
        resolve_run(
            resolve_start(track_id),
            seq![Ok(first_id), Ok(second_id)],
            seq![Ok(track), Ok(answer)],
        ) == Some(file_url(answer)),
{
    reveal_with_fuel(resolve_run, 5);
}

/// A 4xx status forces a fresh `client_id` in both phases, once for each request: the second
/// failure ends the resolution with its message.
pub proof fn law_client_error_forces_client_id(phase: PhaseView, failure: Failure)
    requires
        failure.blames_request(),
    ensures
        resolve_with_reply(phase, false, Err(failure)) == (ResolveStepView::ClientId {
            force: true,
            phase,
            retried: true,
        }),
        resolve_with_reply(phase, true, Err(failure)) == ResolveStepView::Done(
            Err(failure.message@),
        ),
{
}

/// A lookup is tried once more with a fresh `client_id` whatever failed. The request for the
/// file is not, unless the answer blames the request.
pub proof fn law_other_failures(track_id: Seq<char>, target: TargetView, failure: Failure)
    requires
        !failure.blames_request(),
    ensures
        resolve_with_reply(PhaseView::Lookup { track_id }, false, Err(failure)) == (
        ResolveStepView::ClientId {
            force: true,
            phase: PhaseView::Lookup { track_id },
            retried: true,
        }),
        resolve_with_reply(PhaseView::Stream { target }, false, Err(failure))
            == ResolveStepView::Done(Err(failure.message@)),
{
}

/// A stale `client_id` does not stop a resolution: one failed lookup and one 4xx status of the
/// request for the file change nothing in the result.
pub proof fn law_stale_client_id_is_survived(
    track_id: Seq<char>,
    ids: Seq<Result<Seq<char>, Seq<char>>>,
    failed_lookup: Failure,
    track: Json,
    stale: Failure,
    answer: Json,
)
    requires
        ids.len() == 4,
        forall|i: int| 0 <= i < 4 ==> #[trigger] ids[i] is Ok,
        target_of(track) is Ok,
        stale.blames_request(),
    ensures
        resolve_run(
            resolve_start(track_id),
            ids,
            seq![Err(failed_lookup), Ok(track), Err(stale), Ok(answer)],
        ) == Some(file_url(answer)),
{
    reveal_with_fuel(resolve_run, 9);
    assert(ids[0] is Ok && ids[1] is Ok && ids[2] is Ok && ids[3] is Ok);
}

/// A resolution never gives an empty URL.
pub proof fn law_file_url_is_not_empty(
    step: ResolveStepView,
    ids: Seq<Result<Seq<char>, Seq<char>>>,
    replies: Seq<Result<Json, Failure>>,
)
    requires
        step !is Done,
    ensures
        resolve_run(step, ids, replies) matches Some(Ok(url)) ==> url.len() > 0,
    decreases ids.len() + replies.len(),
{
    match step {
        ResolveStepView::Done(r) => {},
        ResolveStepView::ClientId { force, phase, retried } => if ids.len() > 0 {
            let next = resolve_with_id(phase, retried, ids[0]);
            if next !is Done {
                law_file_url_is_not_empty(next, ids.drop_first(), replies);
            }
        },
        ResolveStepView::Send { request, phase, retried } => if replies.len() > 0 {
            let next = resolve_with_reply(phase, retried, replies[0]);
            if next !is Done {
                law_file_url_is_not_empty(next, ids, replies.drop_first());
            }
        },
    }
}

/// What the catalog lists as a track can be asked for: the same JSON names a progressive
/// transcoding, and only that one's URL can be missing.
pub proof fn law_listed_tracks_have_a_target(item: Json)
    requires
        described_track(item) is Some,
    ensures
        progressive_from(transcodings(item)->0, 0) is Some,
        target_of(item) is Ok <==> progressive_url(transcodings(item)->0) is Some,
        target_of(item) matches Err(e) ==> e == no_progressive_message(),
{
    lemma_progressive_from(transcodings(item)->0, 0);
}

/// The string under `url` of the answer ends the resolution as it is, character for character,
/// unless it is empty.
pub proof fn law_stream_url_is_the_answer(
    target: TargetView,
    retried: bool,
    answer: Json,
    url: String,
)
    requires
        holds(answer, "url"@, Json::Text(url)),
    ensures
        url@.len() > 0 ==> resolve_with_reply(PhaseView::Stream { target }, retried, Ok(answer))
            == ResolveStepView::Done(Ok(url@)),
        url@.len() == 0 ==> resolve_with_reply(PhaseView::Stream { target }, retried, Ok(answer))
            == ResolveStepView::Done(Err("SoundCloud returned no stream URL for this track"@)),
        url@.len() > 0 ==> file_url(answer) == Ok::<Seq<char>, Seq<char>>(url@),
        url@.len() == 0 ==> file_url(answer) is Err,
{
    law_entry_is_what_the_object_holds(answer, "url"@);
}

/// An answer without a string under `url` ends the resolution with the message that there is no
/// stream.
pub proof fn law_answer_without_url(target: TargetView, retried: bool, answer: Json)
    requires
        no_string(answer, "url"@),
    ensures
        resolve_with_reply(PhaseView::Stream { target }, retried, Ok(answer))
            == ResolveStepView::Done(Err("SoundCloud returned no stream URL for this track"@)),
        file_url(answer) == Err::<Seq<char>, Seq<char>>(
            "SoundCloud returned no stream URL for this track"@,
        ),
{
    law_entry_is_what_the_object_holds(answer, "url"@);
    if let Some(Json::Text(s)) = answer.entry("url"@) {
        assert(holds(answer, "url"@, Json::Text(s)));
    }
}

/// The first progressive transcoding that a track offers, at position `i` of its list.
pub open spec fn offers_first(track: Json, list: Vec<Json>, i: int) -> bool {
    &&& offers(track, list)
    &&& 0 <= i < list@.len()
    &&& says_progressive(list@[i])
    &&& forall|j: int| 0 <= j < i ==> !says_progressive(#[trigger] list@[j])
}

/// The search for a progressive transcoding passes over the others.
proof fn lemma_progressive_at(list: Seq<Json>, from: int, i: int)
    requires
        0 <= from <= i < list.len(),
        says_progressive(list[i]),
        forall|j: int| 0 <= j < i ==> !says_progressive(#[trigger] list[j]),
    ensures
        progressive_from(list, from) == Some(i),
    decreases i - from,
{
    law_progressive_is_what_the_format_says(list[from]);
    if from < i {
        lemma_progressive_at(list, from + 1, i);
    }
}

/// A looked-up track leads to a request for its file, with a cached `client_id`: at the string
/// under `url` of its first progressive transcoding, all of it, and with the string under
/// `track_authorization` where the track has one.
pub proof fn law_lookup_leads_to_the_first_progressive(
    track_id: Seq<char>,
    retried: bool,
    track: Json,
    list: Vec<Json>,
    i: int,
    url: String,
)
    requires
        offers_first(track, list, i),
        holds(list@[i], "url"@, Json::Text(url)),
    ensures
        resolve_with_reply(
            PhaseView::Lookup { track_id },
            retried,
            Ok(track),
        ) matches ResolveStepView::ClientId {
            force,
            phase: PhaseView::Stream { target },
            retried: again,
        } && {
            &&& !force && !again
            &&& target.url == url@
            &&& forall|auth: String| #[trigger]
                holds(track, "track_authorization"@, Json::Text(auth))
                    ==> target.track_authorization == Some(auth@)
            &&& no_string(track, "track_authorization"@) ==> target.track_authorization is None
        },
        target_of(track) matches Ok(target) && target.url == url@,
{
    law_transcodings_are_what_is_offered(track);
    lemma_progressive_at(list@, 0, i);
    law_entry_is_what_the_object_holds(list@[i], "url"@);
    law_entry_is_what_the_object_holds(track, "track_authorization"@);
    if let Some(Json::Text(s)) = track.entry("track_authorization"@) {
        assert(holds(track, "track_authorization"@, Json::Text(s)));
    }
}

/// A looked-up track without a list of transcodings, without a progressive one, or whose first
/// progressive one has no string under `url`, ends the resolution with the message for it.
pub proof fn law_lookup_of_what_cannot_be_streamed(
    track_id: Seq<char>,
    retried: bool,
    track: Json,
    list: Vec<Json>,
    i: int,
)
    ensures
        ({
            let end = resolve_with_reply(PhaseView::Lookup { track_id }, retried, Ok(track));
            &&& (forall|v: Vec<Json>| !#[trigger] offers(track, v)) ==> end
                == ResolveStepView::Done(Err("SoundCloud track exposes no media transcodings"@))
            &&& offers(track, list) && (forall|j: int|
                0 <= j < list@.len() ==> !says_progressive(#[trigger] list@[j])) ==> end
                == ResolveStepView::Done(
                Err("SoundCloud track has no progressive (non-HLS) stream"@),
            )
            &&& offers_first(track, list, i) && no_string(list@[i], "url"@) ==> end
                == ResolveStepView::Done(
                Err("SoundCloud track has no progressive (non-HLS) stream"@),
            )
        }),
{
    law_transcodings_are_what_is_offered(track);
    assert forall|tc: Json| #[trigger] is_progressive(tc) == says_progressive(tc) by {
        law_progressive_is_what_the_format_says(tc);
    }
    if offers(track, list) {
        lemma_progressive_from(list@, 0);
    }
    if offers_first(track, list, i) && no_string(list@[i], "url"@) {
        lemma_progressive_at(list@, 0, i);
        law_entry_is_what_the_object_holds(list@[i], "url"@);
        if let Some(Json::Text(s)) = list@[i].entry("url"@) {
            assert(holds(list@[i], "url"@, Json::Text(s)));
        }
    }
}

/// A resolution starts with the lookup of its own track; the lookup names that track, and the
/// request for the file goes to its target. Both carry the `client_id` that was given. Without
/// one the resolution ends with the message that came instead.
pub proof fn law_resolution_sends_its_own(
    track_id: Seq<char>,
    target: TargetView,
    retried: bool,
    id: Seq<char>,
    message: Seq<char>,
    phase: PhaseView,
)
    ensures
        resolve_start(track_id) == (ResolveStepView::ClientId {
            force: false,
            phase: PhaseView::Lookup { track_id },
            retried: false,
        }),
        resolve_with_id(
            PhaseView::Lookup { track_id },
            retried,
            Ok(id),
        ) matches ResolveStepView::Send { request, phase: kept, retried: again } && kept == (
        PhaseView::Lookup { track_id }) && again == retried && request.url
            == "https://api-v2.soundcloud.com/tracks/"@ + track_id && request.query.len() == 1
            && request.query[0] == ("client_id"@, id),
        resolve_with_id(
            PhaseView::Stream { target },
            retried,
            Ok(id),
        ) matches ResolveStepView::Send { request, phase: kept, retried: again } && kept == (
        PhaseView::Stream { target }) && again == retried && request.url == target.url
            && request.query[0] == ("client_id"@, id) && (target.track_authorization is None
            ==> request.query.len() == 1) && (target.track_authorization matches Some(auth)
            ==> request.query.len() == 2 && request.query[1] == ("track_authorization"@, auth)),
        resolve_with_id(phase, retried, Err(message)) == ResolveStepView::Done(Err(message)),
{
    law_lookup_names_the_track(track_id, id);
    let auth = match target.track_authorization {
        Some(auth) => auth,
        None => Seq::empty(),
    };
    law_stream_request_goes_to_the_transcoding(target.url, auth, id);
}

/// From the track id to the file: a lookup that offers a progressive transcoding with a URL, and
/// an answer of that transcoding with a URL that is not empty, resolve to that URL, character
/// for character.
pub proof fn law_track_id_resolves_to_the_file(
    track_id: Seq<char>,
    first_id: Seq<char>,
    second_id: Seq<char>,
    track: Json,
    list: Vec<Json>,
    i: int,
    url: String,
    answer: Json,
    file: String,
)
    requires
        offers_first(track, list, i),
        holds(list@[i], "url"@, Json::Text(url)),
        holds(answer, "url"@, Json::Text(file)),
        file@.len() > 0,
    ensures
        resolve_run(
            resolve_start(track_id),
            seq![Ok(first_id), Ok(second_id)],
            seq![Ok(track), Ok(answer)],
        ) == Some(Ok::<Seq<char>, Seq<char>>(file@)),
{
    law_lookup_leads_to_the_first_progressive(track_id, false, track, list, i, url);
    law_two_answers_resolve(track_id, first_id, second_id, track, answer);
    law_stream_url_is_the_answer(target_of(track)->Ok_0, false, answer, file);
}

/// The view of a step has the step's own texts.
pub proof fn law_resolve_step_view_is_the_step(
    force: bool,
    request: ApiRequest,
    call: ResolveCall,
    r: Result<String, String>,
    track_id: String,
    target: StreamTarget,
)
    ensures
        (ResolveStep::ClientId { force, call })@ == (ResolveStepView::ClientId {
            force,
            phase: call.phase@,
            retried: call.retried,
        }),
        (ResolveStep::Send { request, call })@ == (ResolveStepView::Send {
            request: request@,
            phase: call.phase@,
            retried: call.retried,
        }),
        r matches Ok(url) ==> ResolveStep::Done(r)@ == ResolveStepView::Done(
            Ok::<Seq<char>, Seq<char>>(url@),
        ),
        r matches Err(e) ==> ResolveStep::Done(r)@ == ResolveStepView::Done(
            Err::<Seq<char>, Seq<char>>(e@),
        ),
        (Phase::Lookup { track_id })@ == (PhaseView::Lookup { track_id: track_id@ }),
        (Phase::Stream { target })@ == (PhaseView::Stream { target: target@ }),
        target@.url == target.url@,
        target.track_authorization is None ==> target@.track_authorization is None,
        target.track_authorization matches Some(auth) ==> target@.track_authorization == Some(
            auth@,
        ),
{
}

/// The second failure of a request ends the resolution with its own message, whatever failed.
pub proof fn law_second_failure_ends_the_resolution(phase: PhaseView, failure: Failure)
    ensures
        resolve_with_reply(phase, true, Err(failure)) == ResolveStepView::Done(
            Err(failure.message@),
        ),
{
}

} // verus!
