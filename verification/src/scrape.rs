//! The web player's `client_id`: where it stands in the player's pages, and when it is looked
//! for again.

use crate::text::{
    contains, ends_with, find, find_from, free_of, has_suffix, has_text, lacks,
    law_find_is_the_first_match, law_has_suffix_is_an_end, law_has_text_is_a_match,
    lemma_find_from, lemma_find_from_is, lemma_find_stands, lemma_occurs_chars, lemma_split_shift,
    occurs_at, optional_text, result_text, split, split_from, stands, stands_first, texts, to_chars,
};
use vstd::prelude::*;
use vstd::string::*;

verus! {

/// The value of `attr="..."` in a fragment: what stands between the first `attr="` and the
/// next quote.
pub open spec fn attr_value(chunk: Seq<char>, attr: Seq<char>) -> Option<Seq<char>> {
    let key = attr + "=\""@;
    match find_from(chunk, key, 0) {
        Some(i) => match find_from(chunk, "\""@, i + key.len()) {
            Some(end) => Some(chunk.subrange(i + key.len(), end)),
            None => None,
        },
        None => None,
    }
}

/// Reads the value of an HTML `attr="..."` from a fragment, if it is there.
pub fn extract_attr<'a>(chunk: &'a str, attr: &str) -> (r: Option<&'a str>)
    ensures
        match r {
            Some(value) => attr_value(chunk@, attr@) == Some(value@),
            None => attr_value(chunk@, attr@) is None,
        },
{
    let mut key = attr.to_string();
    key.append("=\"");
    let chars = to_chars(chunk);
    let key_chars = to_chars(key.as_str());
    let quote = to_chars("\"");
    proof {
        lemma_find_from(chunk@, key@, 0);
    }
    match find(&chars, &key_chars, 0) {
        Some(i) => {
            assert(i + key_chars.len() <= chars.len());
            let start: usize = i + key_chars.len();
            proof {
                lemma_find_from(chunk@, "\""@, start as int);
            }
            match find(&chars, &quote, start) {
                Some(end) => Some(chunk.substring_char(start, end)),
                None => None,
            }
        },
        None => None,
    }
}

/// An ASCII letter or digit.
pub open spec fn alphanumeric(c: char) -> bool {
    'a' <= c <= 'z' || 'A' <= c <= 'Z' || '0' <= c <= '9'
}

/// The end of the run of letters and digits that starts at `from`.
pub open spec fn run_end(s: Seq<char>, from: int) -> int
    decreases s.len() - from,
{
    if 0 <= from < s.len() && alphanumeric(s[from]) {
        run_end(s, from + 1)
    } else {
        from
    }
}

/// The least length of a `client_id`.
pub const MIN_ID_LEN: usize = 16;

/// The id behind the first occurrence of `marker`: the letters and digits that follow it,
/// where they are enough for an id.
pub open spec fn id_behind(js: Seq<char>, marker: Seq<char>) -> Option<Seq<char>> {
    match find_from(js, marker, 0) {
        Some(i) => {
            let start = i + marker.len();
            if run_end(js, start) - start >= MIN_ID_LEN {
                Some(js.subrange(start, run_end(js, start)))
            } else {
                None
            }
        },
        None => None,
    }
}

/// The `client_id` in a script bundle. It is written `client_id:"..."`, or as a quoted JSON
/// key, or `client_id="..."`, and the three forms are tried in this order.
pub open spec fn client_id_in(js: Seq<char>) -> Option<Seq<char>> {
    match id_behind(js, "client_id:\""@) {
        Some(id) => Some(id),
        None => match id_behind(js, "\"client_id\":\""@) {
            Some(id) => Some(id),
            None => id_behind(js, "client_id=\""@),
        },
    }
}

/// Reads the id behind the first occurrence of `marker`.
fn id_after(js: &str, marker: &str) -> (r: Option<String>)
    ensures
        optional_text(r) == id_behind(js@, marker@),
{
    let chars = to_chars(js);
    let marker_chars = to_chars(marker);
    proof {
        lemma_find_from(js@, marker@, 0);
    }
    match find(&chars, &marker_chars, 0) {
        Some(i) => {
            assert(i + marker_chars.len() <= chars.len());
            let start: usize = i + marker_chars.len();
            let mut end: usize = start;
            while end < chars.len() && ((chars[end] >= 'a' && chars[end] <= 'z') || (chars[end]
                >= 'A' && chars[end] <= 'Z') || (chars[end] >= '0' && chars[end] <= '9'))
                invariant
                    start <= end <= chars.len(),
                    run_end(chars@, start as int) == run_end(chars@, end as int),
                decreases chars.len() - end,
            {
                end += 1;
            }
            if end - start >= MIN_ID_LEN {
                Some(js.substring_char(start, end).to_string())
            } else {
                None
            }
        },
        None => None,
    }
}

/// Locates a `client_id` in a script bundle.
pub fn find_client_id(js: &str) -> (r: Option<String>)
    ensures
        optional_text(r) == client_id_in(js@),
{
    match id_after(js, "client_id:\"") {
        Some(id) => Some(id),
        None => match id_after(js, "\"client_id\":\"") {
            Some(id) => Some(id),
            None => id_after(js, "client_id=\""),
        },
    }
}

/// The URL of the script bundle that a fragment of the homepage refers to.
pub open spec fn bundle_url(chunk: Seq<char>) -> Option<Seq<char>> {
    match attr_value(chunk, "src"@) {
        Some(src) => if has_text(src, "sndcdn.com/assets/"@) && has_suffix(src, ".js"@) {
            Some(src)
        } else {
            None
        },
        None => None,
    }
}

/// The URLs of the script bundles that some fragments refer to, in order.
pub open spec fn bundle_urls(chunks: Seq<Seq<char>>) -> Seq<Seq<char>>
    decreases chunks.len(),
{
    if chunks.len() == 0 {
        Seq::empty()
    } else {
        match bundle_url(chunks.last()) {
            Some(url) => bundle_urls(chunks.drop_last()).push(url),
            None => bundle_urls(chunks.drop_last()),
        }
    }
}

/// The URLs of the script bundles that the homepage refers to, in order.
pub open spec fn homepage_bundles(html: Seq<char>) -> Seq<Seq<char>> {
    bundle_urls(split_from(html, "<script"@, 0))
}

/// Lists the script bundles that the homepage refers to.
pub fn script_urls(html: &str) -> (urls: Vec<String>)
    ensures
        texts(urls@) == homepage_bundles(html@),
{
    proof {
        reveal_strlit("<script");
    }
    let chunks = split(html, "<script");
    let ghost pieces = texts(chunks@);
    let mut urls: Vec<String> = Vec::new();
    let mut i: usize = 0;
    assert(texts(urls@) =~= bundle_urls(pieces.take(0)));
    while i < chunks.len()
        invariant
            i <= chunks.len(),
            pieces == texts(chunks@),
            texts(urls@) == bundle_urls(pieces.take(i as int)),
        decreases chunks.len() - i,
    {
        let ghost before = texts(urls@);
        assert(pieces.take(i + 1).drop_last() =~= pieces.take(i as int));
        assert(pieces.take(i + 1).last() == chunks@[i as int]@);
        if let Some(src) = extract_attr(chunks[i].as_str(), "src") {
            if contains(src, "sndcdn.com/assets/") && ends_with(src, ".js") {
                let url = src.to_string();
                urls.push(url);
                assert(texts(urls@) =~= before.push(url@));
            }
        }
        i += 1;
    }
    assert(pieces.take(pieces.len() as int) =~= pieces);
    urls
}

/// A search through script bundles.
pub struct BundleScan {
    /// The bundles not asked for yet, the oldest first.
    pub pending: Vec<String>,
}

/// What a search through script bundles does next.
pub enum ScrapeStep {
    /// Fetch `url` and hand its text to [`BundleScan::on_bundle`] of `scan`.
    Fetch { url: String, scan: BundleScan },
    /// The search is over.
    Done(Result<String, String>),
}

/// What a [`ScrapeStep`] holds, with texts as sequences of characters.
#[verifier::ext_equal]
pub enum ScrapeStepView {
    Fetch { url: Seq<char>, pending: Seq<Seq<char>> },
    Done(Result<Seq<char>, Seq<char>>),
}

impl View for ScrapeStep {
    type V = ScrapeStepView;

    open spec fn view(&self) -> ScrapeStepView {
        match *self {
            ScrapeStep::Fetch { url, scan } => ScrapeStepView::Fetch {
                url: url@,
                pending: texts(scan.pending@),
            },
            ScrapeStep::Done(r) => ScrapeStepView::Done(result_text(r)),
        }
    }
}

/// The message where no bundle holds an id.
pub open spec fn no_id_message() -> Seq<char> {
    "SoundCloud: couldn't extract a client_id from the web player"@
}

/// The newest bundle not asked for yet comes next.
pub open spec fn next_bundle(pending: Seq<Seq<char>>) -> ScrapeStepView {
    if pending.len() == 0 {
        ScrapeStepView::Done(Err(no_id_message()))
    } else {
        ScrapeStepView::Fetch { url: pending.last(), pending: pending.drop_last() }
    }
}

/// The id in the answer to a fetch; a bundle that could not be fetched holds none.
pub open spec fn hit(js: Option<Seq<char>>) -> Option<Seq<char>> {
    match js {
        Some(js) => client_id_in(js),
        None => None,
    }
}

/// An id ends the search, and anything else moves it on.
pub open spec fn after_bundle(pending: Seq<Seq<char>>, js: Option<Seq<char>>) -> ScrapeStepView {
    match hit(js) {
        Some(id) => ScrapeStepView::Done(Ok(id)),
        None => next_bundle(pending),
    }
}

impl BundleScan {
    /// Turns to the newest bundle not asked for yet.
    fn advance(self) -> (step: ScrapeStep)
        ensures
            step@ == next_bundle(texts(self.pending@)),
    {
        let mut pending = self.pending;
        match pending.pop() {
            Some(url) => {
                assert(texts(pending@) =~= texts(self.pending@).drop_last());
                ScrapeStep::Fetch { url, scan: BundleScan { pending } }
            },
            None => ScrapeStep::Done(
                Err("SoundCloud: couldn't extract a client_id from the web player".to_string()),
            ),
        }
    }

    /// Takes the text of the bundle that was asked for, or `None` where it could not be
    /// fetched.
    pub fn on_bundle(self, js: Option<String>) -> (step: ScrapeStep)
        ensures
            step@ == after_bundle(texts(self.pending@), optional_text(js)),
    {
        match js {
            Some(js) => match find_client_id(js.as_str()) {
                Some(id) => ScrapeStep::Done(Ok(id)),
                None => self.advance(),
            },
            None => self.advance(),
        }
    }
}

/// Starts the search for a fresh `client_id` in the bundles that the homepage refers to. The
/// id is usually in one of the later ones, so they are asked for newest first, and the first
/// one that holds an id ends the search.
pub fn scrape_client_id(html: &str) -> (step: ScrapeStep)
    ensures
        step@ == next_bundle(homepage_bundles(html@)),
{
    BundleScan { pending: script_urls(html) }.advance()
}

/// The `client_id` of the last search.
pub struct ClientIdCache {
    /// `None` until the first search.
    pub id: Option<String>,
}

/// The id to use without a search, given the cached one.
pub open spec fn usable_id(cached: Option<String>, force: bool) -> Option<String> {
    if force {
        None
    } else {
        cached
    }
}

/// What is cached after a search, given what was cached before.
pub open spec fn kept_id(cached: Option<String>, scraped: Result<String, String>) -> Option<
    String,
> {
    match scraped {
        Ok(id) => Some(id),
        Err(_) => cached,
    }
}

impl ClientIdCache {
    /// The id to use without a search. There is none before the first search, nor where
    /// `force` asks for a fresh one.
    pub fn client_id(&self, force: bool) -> (r: Option<String>)
        ensures
            r == usable_id(self.id, force),
    {
        if force {
            None
        } else {
            self.id.clone()
        }
    }

    /// Takes the outcome of a search. An id is kept, and a failure leaves the cache as it is.
    pub fn store(&mut self, scraped: Result<String, String>) -> (r: Result<String, String>)
        ensures
            r == scraped,
            final(self).id == kept_id(old(self).id, scraped),
    {
        if let Ok(id) = &scraped {
            self.id = Some(id.clone());
        }
        scraped
    }
}

/// An attribute's value is read back from where it was written: the first place that gives
/// the attribute decides.
pub proof fn law_attr_reads_back(
    before: Seq<char>,
    attr: Seq<char>,
    value: Seq<char>,
    behind: Seq<char>,
)
    requires
        lacks(value, '"'),
        forall|j: int|
            0 <= j < before.len() ==> !#[trigger] occurs_at(
                before + attr + "=\""@ + value + "\""@ + behind,
                attr + "=\""@,
                j,
            ),
    ensures
        attr_value(before + attr + "=\""@ + value + "\""@ + behind, attr) == Some(value),
{
    reveal_strlit("=\"");
    reveal_strlit("\"");
    let chunk = before + attr + "=\""@ + value + "\""@ + behind;
    let key = attr + "=\""@;
    let quote = "\""@;
    let n = before.len() as int;
    let start = n + key.len();
    let end = start + value.len();
    assert(chunk.subrange(n, start) =~= key);
    lemma_find_from_is(chunk, key, 0, n);
    assert(chunk.subrange(start, end) =~= value);
    assert(chunk.subrange(end, end + 1) =~= quote);
    assert forall|j: int| start <= j < end implies !#[trigger] occurs_at(chunk, quote, j) by {
        lemma_occurs_chars(chunk, quote, j);
        assert(value[j - start] != quote[0]);
        assert(chunk[j + 0] == value[j - start]);
    }
    lemma_find_from_is(chunk, quote, start, end);
}

/// A run of letters and digits holds nothing else, and goes on as far as it can.
proof fn lemma_run_end(s: Seq<char>, from: int)
    requires
        0 <= from <= s.len(),
    ensures
        from <= run_end(s, from) <= s.len(),
        forall|i: int| from <= i < run_end(s, from) ==> alphanumeric(#[trigger] s[i]),
        run_end(s, from) < s.len() ==> !alphanumeric(s[run_end(s, from)]),
    decreases s.len() - from,
{
    if from < s.len() && alphanumeric(s[from]) {
        lemma_run_end(s, from + 1);
    }
}

/// The id stands in the bundle directly behind the marker, as one whole run of letters and
/// digits.
pub open spec fn id_stands_behind(js: Seq<char>, marker: Seq<char>, id: Seq<char>) -> bool {
    exists|i: int|
        {
            &&& #[trigger] occurs_at(js, marker, i)
            &&& occurs_at(js, id, i + marker.len())
            &&& i + marker.len() + id.len() < js.len() ==> !alphanumeric(
                js[i + marker.len() + id.len()],
            )
        }
}

/// What is found behind a marker is an id.
proof fn lemma_id_behind(js: Seq<char>, marker: Seq<char>)
    ensures
        id_behind(js, marker) matches Some(id) ==> id.len() >= 16 && (forall|i: int|
            0 <= i < id.len() ==> alphanumeric(#[trigger] id[i])) && id_stands_behind(
            js,
            marker,
            id,
        ),
{
    lemma_find_from(js, marker, 0);
    if let Some(i) = find_from(js, marker, 0) {
        let start = i + marker.len();
        lemma_run_end(js, start);
        if let Some(id) = id_behind(js, marker) {
            assert(occurs_at(js, marker, i));
            assert(occurs_at(js, id, start));
        }
    }
}

/// A `client_id` is at least sixteen letters and digits, and stands in the bundle directly
/// behind one of the three markers.
pub proof fn law_client_id_shape(js: Seq<char>)
    requires
        client_id_in(js) is Some,
    ensures
        ({
            let id = client_id_in(js)->0;
            &&& id.len() >= 16
            &&& forall|i: int| 0 <= i < id.len() ==> alphanumeric(#[trigger] id[i])
            &&& id_stands_behind(js, "client_id:\""@, id) || id_stands_behind(
                js,
                "\"client_id\":\""@,
                id,
            ) || id_stands_behind(js, "client_id=\""@, id)
        }),
{
    lemma_id_behind(js, "client_id:\""@);
    lemma_id_behind(js, "\"client_id\":\""@);
    lemma_id_behind(js, "client_id=\""@);
}

/// How a search through bundles ends from a step on, where `answers[i]` is the answer to the
/// fetch of the bundle that has `i` older ones.
pub open spec fn scan_run(
    step: ScrapeStepView,
    answers: Seq<Option<Seq<char>>>,
) -> Result<Seq<char>, Seq<char>>
    decreases
            (match step {
                ScrapeStepView::Fetch { pending, .. } => pending.len() + 1,
                ScrapeStepView::Done(_) => 0,
            }),
{
    match step {
        ScrapeStepView::Fetch { url, pending } => scan_run(
            after_bundle(pending, answers[pending.len() as int]),
            answers,
        ),
        ScrapeStepView::Done(r) => r,
    }
}

/// The newest of the bundles that hold an id gives the id, whatever the others hold. The
/// search fails exactly where none holds one.
pub proof fn law_newest_bundle_decides(urls: Seq<Seq<char>>, answers: Seq<Option<Seq<char>>>)
    requires
        answers.len() == urls.len(),
    ensures
        match scan_run(next_bundle(urls), answers) {
            Ok(id) => exists|i: int|
                {
                    &&& 0 <= i < answers.len()
                    &&& hit(#[trigger] answers[i]) == Some(id)
                    &&& forall|j: int| i < j < answers.len() ==> hit(#[trigger] answers[j]) is None
                },
            Err(e) => e == no_id_message() && forall|i: int|
                0 <= i < answers.len() ==> hit(#[trigger] answers[i]) is None,
        },
    decreases urls.len(),
{
    if urls.len() > 0 {
        let n = urls.len() - 1;
        let older = urls.drop_last();
        let next = after_bundle(older, answers[n]);
        assert(scan_run(next_bundle(urls), answers) == scan_run(next, answers));
        if hit(answers[n]) is None {
            law_newest_bundle_decides(older, answers.take(n));
            lemma_scan_ignores_later(next_bundle(older), answers, n);
            let r = scan_run(next_bundle(older), answers.take(n));
            if let Ok(id) = r {
                let i = choose|i: int|
                    {
                        &&& 0 <= i < n
                        &&& hit(#[trigger] answers.take(n)[i]) == Some(id)
                        &&& forall|j: int|
                            i < j < n ==> hit(#[trigger] answers.take(n)[j]) is None
                    };
                assert(hit(answers[i]) == Some(id));
                assert forall|j: int| i < j < answers.len() implies hit(
                    #[trigger] answers[j],
                ) is None by {
                    if j < n {
                        assert(hit(answers.take(n)[j]) is None);
                    }
                }
            } else {
                assert forall|j: int| 0 <= j < answers.len() implies hit(
                    #[trigger] answers[j],
                ) is None by {
                    if j < n {
                        assert(hit(answers.take(n)[j]) is None);
                    }
                }
            }
        } else {
            assert(scan_run(next, answers) == Ok::<Seq<char>, Seq<char>>(hit(answers[n])->0));
        }
    }
}

/// Answers of bundles that are not pending do not matter.
proof fn lemma_scan_ignores_later(
    step: ScrapeStepView,
    answers: Seq<Option<Seq<char>>>,
    n: int,
)
    requires
        0 <= n <= answers.len(),
        step matches ScrapeStepView::Fetch { pending, .. } ==> pending.len() < n,
    ensures
        scan_run(step, answers) == scan_run(step, answers.take(n)),
    decreases
            (match step {
                ScrapeStepView::Fetch { pending, .. } => pending.len() + 1,
                ScrapeStepView::Done(_) => 0,
            }),
{
    if let ScrapeStepView::Fetch { url, pending } = step {
        let k = pending.len() as int;
        assert(answers.take(n)[k] == answers[k]);
        lemma_scan_ignores_later(after_bundle(pending, answers[k]), answers, n);
    }
}

/// A search is made before the first id is known and whenever a fresh one is asked for; the
/// id that it gives is used from then on, and a search that fails changes nothing.
pub proof fn law_client_id_is_cached(
    cached: Option<String>,
    id: String,
    message: String,
    force: bool,
)
    ensures
        usable_id(None, force) is None,
        usable_id(cached, true) is None,
        usable_id(kept_id(cached, Ok(id)), false) == Some(id),
        usable_id(kept_id(cached, Err(message)), force) == usable_id(cached, force),
{
}

/// The value of an attribute is what stands between the first `attr="` and the next quote,
/// character for character.
pub proof fn law_attr_value_ends_at_the_quote(
    chunk: Seq<char>,
    attr: Seq<char>,
    i: int,
    end: int,
)
    requires
        stands_first(chunk, attr + "=\""@, i),
        i + attr.len() + 2 <= end < chunk.len(),
        chunk[end] == '"',
        forall|j: int| i + attr.len() + 2 <= j < end ==> #[trigger] chunk[j] != '"',
    ensures
        attr_value(chunk, attr) == Some(chunk.subrange(i + attr.len() + 2, end)),
{
    reveal_strlit("=\"");
    reveal_strlit("\"");
    let key = attr + "=\""@;
    let quote = "\""@;
    lemma_find_stands(chunk, key, 0, i);
    let start = i + key.len();
    assert(stands(chunk, quote, end));
    assert forall|j: int| start <= j < end implies !#[trigger] stands(chunk, quote, j) by {
        if stands(chunk, quote, j) {
            assert(chunk[j + 0] == quote[0]);
        }
    }
    lemma_find_stands(chunk, quote, start, end);
}

/// A fragment without `attr="`, or without a quote behind it, has no value of the attribute.
pub proof fn law_attr_value_is_missing(chunk: Seq<char>, attr: Seq<char>, i: int)
    requires
        free_of(chunk, attr + "=\""@) || stands_first(chunk, attr + "=\""@, i) && forall|j: int|
            i + attr.len() + 2 <= j < chunk.len() ==> #[trigger] chunk[j] != '"',
    ensures
        attr_value(chunk, attr) is None,
{
    reveal_strlit("=\"");
    reveal_strlit("\"");
    let key = attr + "=\""@;
    let quote = "\""@;
    law_find_is_the_first_match(chunk, key, 0);
    if !free_of(chunk, key) {
        lemma_find_stands(chunk, key, 0, i);
        law_find_is_the_first_match(chunk, quote, i + key.len());
        if let Some(j) = find_from(chunk, quote, i + key.len()) {
            assert(chunk[j + 0] == quote[0]);
        }
    }
}

/// The code points of the ASCII digits and letters.
pub open spec fn letter_or_digit(c: char) -> bool {
    48 <= c as int <= 57 || 65 <= c as int <= 90 || 97 <= c as int <= 122
}

/// Behind the first place of the marker stands the id: at least sixteen letters and digits, up
/// to the first character that is neither, or to the end.
pub open spec fn yields(js: Seq<char>, marker: Seq<char>, id: Seq<char>) -> bool {
    exists|i: int|
        {
            &&& #[trigger] stands_first(js, marker, i)
            &&& stands(js, id, i + marker.len())
            &&& id.len() >= 16
            &&& forall|k: int| 0 <= k < id.len() ==> letter_or_digit(#[trigger] id[k])
            &&& i + marker.len() + id.len() < js.len() ==> !letter_or_digit(
                js[i + marker.len() + id.len()],
            )
        }
}

/// A run of letters and digits goes on to where it is known to end.
proof fn lemma_run_end_is(s: Seq<char>, from: int, end: int)
    requires
        0 <= from <= end <= s.len(),
        forall|i: int| from <= i < end ==> letter_or_digit(#[trigger] s[i]),
        end < s.len() ==> !letter_or_digit(s[end]),
    ensures
        run_end(s, from) == end,
    decreases end - from,
{
    if from < end {
        assert(letter_or_digit(s[from]));
        lemma_run_end_is(s, from + 1, end);
    }
}

/// What is found behind a marker is what the marker yields, and nothing is found only where it
/// yields nothing.
pub proof fn law_marker_gives_the_whole_run(js: Seq<char>, marker: Seq<char>, id: Seq<char>)
    ensures
        id_behind(js, marker) == Some(id) <==> yields(js, marker, id),
{
    law_find_is_the_first_match(js, marker, 0);
    if yields(js, marker, id) {
        let i = choose|i: int|
            {
                &&& #[trigger] stands_first(js, marker, i)
                &&& stands(js, id, i + marker.len())
                &&& id.len() >= 16
                &&& forall|k: int| 0 <= k < id.len() ==> letter_or_digit(#[trigger] id[k])
                &&& i + marker.len() + id.len() < js.len() ==> !letter_or_digit(
                    js[i + marker.len() + id.len()],
                )
            };
        lemma_find_stands(js, marker, 0, i);
        let start = i + marker.len();
        let end = start + id.len();
        assert forall|j: int| start <= j < end implies letter_or_digit(#[trigger] js[j]) by {
            assert(js[start + (j - start)] == id[j - start]);
        }
        lemma_run_end_is(js, start, end);
        assert(js.subrange(start, end) =~= id) by {
            assert forall|k: int| 0 <= k < id.len() implies js.subrange(start, end)[k]
                == #[trigger] id[k] by {
                assert(js[start + k] == id[k]);
            }
        }
    }
    if id_behind(js, marker) == Some(id) {
        let i = find_from(js, marker, 0)->0;
        let start = i + marker.len();
        lemma_run_end(js, start);
        assert(stands_first(js, marker, i));
        assert forall|k: int| 0 <= k < id.len() implies letter_or_digit(#[trigger] id[k]) by {
            assert(alphanumeric(js[start + k]));
        }
        assert(stands(js, id, start));
    }
}

/// The search for an id is complete. What the first form yields is found; where it yields
/// nothing, what the second form yields, and then the third. Nothing is found only where none
/// yields anything.
pub proof fn law_client_id_is_found(js: Seq<char>, id: Seq<char>)
    ensures
        ({
            let colon = "client_id:\""@;
            let quoted = "\"client_id\":\""@;
            let equals = "client_id=\""@;
            let none = |marker: Seq<char>| forall|x: Seq<char>| !#[trigger] yields(js, marker, x);
            &&& yields(js, colon, id) ==> client_id_in(js) == Some(id)
            &&& none(colon) && yields(js, quoted, id) ==> client_id_in(js) == Some(id)
            &&& none(colon) && none(quoted) && yields(js, equals, id) ==> client_id_in(js) == Some(
                id,
            )
            &&& none(colon) && none(quoted) && none(equals) ==> client_id_in(js) is None
        }),
{
    let colon = "client_id:\""@;
    let quoted = "\"client_id\":\""@;
    let equals = "client_id=\""@;
    assert forall|marker: Seq<char>, x: Seq<char>| #[trigger]
        yields(js, marker, x) == (id_behind(js, marker) == Some(x)) by {
        law_marker_gives_the_whole_run(js, marker, x);
    }
    if let Some(x) = id_behind(js, colon) {
        assert(yields(js, colon, x));
    }
    if let Some(x) = id_behind(js, quoted) {
        assert(yields(js, quoted, x));
    }
    if let Some(x) = id_behind(js, equals) {
        assert(yields(js, equals, x));
    }
}

/// A fragment refers to a bundle exactly where its `src` has `sndcdn.com/assets/` in it and ends
/// in `.js`; the URL of the bundle is that `src`, all of it.
pub proof fn law_bundle_url_is_the_source(chunk: Seq<char>, src: Seq<char>)
    ensures
        bundle_url(chunk) == Some(src) <==> {
            &&& attr_value(chunk, "src"@) == Some(src)
            &&& exists|i: int| stands(src, "sndcdn.com/assets/"@, i)
            &&& exists|before: Seq<char>| src == #[trigger] (before + ".js"@)
        },
{
    law_has_text_is_a_match(src, "sndcdn.com/assets/"@);
    law_has_suffix_is_an_end(src, ".js"@);
}

/// The bundles of some fragments and some more are the bundles of the first and then of the
/// others.
proof fn lemma_bundle_urls_concat(a: Seq<Seq<char>>, b: Seq<Seq<char>>)
    ensures
        bundle_urls(a + b) == bundle_urls(a) + bundle_urls(b),
    decreases b.len(),
{
    if b.len() == 0 {
        assert(a + b =~= a);
        assert(bundle_urls(a) + bundle_urls(b) =~= bundle_urls(a));
    } else {
        lemma_bundle_urls_concat(a, b.drop_last());
        assert((a + b).drop_last() =~= a + b.drop_last());
        assert((a + b).last() == b.last());
        assert(bundle_urls(a + b) =~= bundle_urls(a) + bundle_urls(b));
    }
}

/// The bundles of one fragment.
proof fn lemma_bundle_urls_one(chunk: Seq<char>)
    ensures
        bundle_urls(seq![chunk]) == match bundle_url(chunk) {
            Some(url) => seq![url],
            None => Seq::<Seq<char>>::empty(),
        },
{
    reveal_with_fuel(bundle_urls, 2);
    let one = seq![chunk];
    assert(one.drop_last() =~= Seq::empty());
    assert(one.last() == chunk);
    if let Some(url) = bundle_url(chunk) {
        assert(Seq::<Seq<char>>::empty().push(url) =~= seq![url]);
    }
}

/// A page without `<script` is one fragment: it has the bundle that this fragment refers to.
pub proof fn law_page_without_script(html: Seq<char>)
    requires
        free_of(html, "<script"@),
    ensures
        homepage_bundles(html) == match bundle_url(html) {
            Some(url) => seq![url],
            None => Seq::<Seq<char>>::empty(),
        },
{
    law_find_is_the_first_match(html, "<script"@, 0);
    assert(html.subrange(0, html.len() as int) =~= html);
    lemma_bundle_urls_one(html);
}

/// The bundles of a page are those before its first `<script`, and then those behind it, in
/// order and with none left out.
pub proof fn law_page_is_cut_at_scripts(before: Seq<char>, behind: Seq<char>)
    requires
        stands_first(before + "<script"@ + behind, "<script"@, before.len() as int),
    ensures
        homepage_bundles(before + "<script"@ + behind) == (match bundle_url(before) {
            Some(url) => seq![url],
            None => Seq::<Seq<char>>::empty(),
        }) + homepage_bundles(behind),
{
    reveal_strlit("<script");
    let sep = "<script"@;
    let html = before + sep + behind;
    let n = before.len() as int;
    lemma_find_stands(html, sep, 0, n);
    assert(html.subrange(0, n) =~= before);
    assert(html.subrange(n + 7, html.len() as int) =~= behind);
    lemma_split_shift(html, sep, n + 7, 0);
    lemma_bundle_urls_concat(seq![before], split_from(behind, sep, 0));
    lemma_bundle_urls_one(before);
}

/// How a search through bundles ends from a step on, where `web` gives the text behind a URL.
pub open spec fn scan_web(
    step: ScrapeStepView,
    web: spec_fn(Seq<char>) -> Option<Seq<char>>,
) -> Result<Seq<char>, Seq<char>>
    decreases
            (match step {
                ScrapeStepView::Fetch { pending, .. } => pending.len() + 1,
                ScrapeStepView::Done(_) => 0,
            }),
{
    match step {
        ScrapeStepView::Fetch { url, pending } => scan_web(after_bundle(pending, web(url)), web),
        ScrapeStepView::Done(r) => r,
    }
}

/// A bundle that can be fetched and holds this id.
pub open spec fn bundle_gives(text: Option<Seq<char>>, id: Seq<char>) -> bool {
    text matches Some(js) && client_id_in(js) == Some(id)
}

/// Of the bundles whose text holds an id, the one listed last gives the id of the search. The
/// search fails exactly where no bundle can be fetched and holds one.
pub proof fn law_last_listed_bundle_gives_the_id(
    urls: Seq<Seq<char>>,
    web: spec_fn(Seq<char>) -> Option<Seq<char>>,
)
    ensures
        match scan_web(next_bundle(urls), web) {
            Ok(id) => exists|i: int|
                {
                    &&& 0 <= i < urls.len()
                    &&& bundle_gives(web(#[trigger] urls[i]), id)
                    &&& forall|j: int, x: Seq<char>|
                        i < j < urls.len() ==> !#[trigger] bundle_gives(web(urls[j]), x)
                },
            Err(e) => {
                &&& e == "SoundCloud: couldn't extract a client_id from the web player"@
                &&& forall|i: int, x: Seq<char>|
                    0 <= i < urls.len() ==> !#[trigger] bundle_gives(web(urls[i]), x)
            },
        },
    decreases urls.len(),
{
    if urls.len() > 0 {
        let n = urls.len() - 1;
        let older = urls.drop_last();
        let text = web(urls[n]);
        let next = after_bundle(older, text);
        assert(scan_web(next_bundle(urls), web) == scan_web(next, web));
        if exists|x: Seq<char>| bundle_gives(text, x) {
            let x = choose|x: Seq<char>| bundle_gives(text, x);
            assert(next == ScrapeStepView::Done(Ok(x)));
            assert(scan_web(next, web) == Ok::<Seq<char>, Seq<char>>(x));
            assert(bundle_gives(web(urls[n]), x));
        } else {
            assert(hit(text) is None) by {
                if let Some(x) = hit(text) {
                    assert(bundle_gives(text, x));
                }
            }
            assert(next == next_bundle(older));
            law_last_listed_bundle_gives_the_id(older, web);
            match scan_web(next_bundle(older), web) {
                Ok(id) => {
                    let i = choose|i: int|
                        {
                            &&& 0 <= i < older.len()
                            &&& bundle_gives(web(#[trigger] older[i]), id)
                            &&& forall|j: int, x: Seq<char>|
                                i < j < older.len() ==> !#[trigger] bundle_gives(web(older[j]), x)
                        };
                    assert(older[i] == urls[i]);
                    assert forall|j: int, x: Seq<char>|
                        i < j < urls.len() implies !#[trigger] bundle_gives(web(urls[j]), x) by {
                        if j < n {
                            assert(older[j] == urls[j]);
                            assert(!bundle_gives(web(older[j]), x));
                        }
                    }
                },
                Err(e) => {
                    assert forall|j: int, x: Seq<char>|
                        0 <= j < urls.len() implies !#[trigger] bundle_gives(web(urls[j]), x) by {
                        if j < n {
                            assert(older[j] == urls[j]);
                            assert(!bundle_gives(web(older[j]), x));
                        }
                    }
                },
            }
        }
    }
}

/// The cached id is used as it is where no fresh one is asked for, and an id that a search gave
/// takes its place.
pub proof fn law_cached_id_is_used(cached: Option<String>, id: String, message: String)
    ensures
        usable_id(cached, false) == cached,
        usable_id(cached, true) is None,
        kept_id(cached, Ok(id)) == Some(id),
        kept_id(cached, Err(message)) == cached,
{
}

/// The view of a step has the step's own texts.
pub proof fn law_scrape_step_view_is_the_step(
    url: String,
    scan: BundleScan,
    r: Result<String, String>,
)
    ensures
        (ScrapeStep::Fetch { url, scan })@ matches ScrapeStepView::Fetch { url: u, pending } && u
            == url@ && pending.len() == scan.pending@.len() && forall|i: int|
            0 <= i < pending.len() ==> #[trigger] pending[i] == scan.pending@[i]@,
        r matches Ok(id) ==> ScrapeStep::Done(r)@ == ScrapeStepView::Done(
            Ok::<Seq<char>, Seq<char>>(id@),
        ),
        r matches Err(e) ==> ScrapeStep::Done(r)@ == ScrapeStepView::Done(
            Err::<Seq<char>, Seq<char>>(e@),
        ),
{
}

} // verus!
