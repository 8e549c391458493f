//! The decisions taken around background work: matching metadata to search
//! results, choosing a stream, and planning what playing an episode needs.

use vstd::prelude::*;

use crate::app::App;
use crate::app_model::{lookup, remove_entry, AppView};
use crate::config::{MetadataProvider, MinQuality};
use crate::model::anime::{clone_opt_string, clone_strings, Anime};
use crate::model::stream::{Quality, StreamUrl};
use crate::number::{episode_number_text, int_value, parse_int};
use crate::player::PlayOptions;
use crate::text::{chars_eq, chars_of, contains_chars, has_substring};

verus! {

/// The lower-case form of a text, as `str::to_lowercase` gives it.
pub uninterp spec fn lowercase(s: Seq<char>) -> Seq<char>;

/// `str::to_lowercase`. Trusted: its result is a function of the text alone
/// (Unicode case mapping); nothing more about it is stated.
#[verifier::external_body]
fn to_lowercase(s: &str) -> (r: String)
    ensures
        r@ == lowercase(s@),
{
    s.to_lowercase()
}

/// Two titles match when, ignoring case, one contains the other.
pub open spec fn titles_match(a: Seq<char>, b: Seq<char>) -> bool {
    let la = lowercase(a);
    let lb = lowercase(b);
    la == lb || has_substring(la, lb) || has_substring(lb, la)
}

/// Whether two titles match, ignoring case.
pub fn fuzzy_match(a: &str, b: &str) -> (r: bool)
    ensures
        r == titles_match(a@, b@),
{
    let la = chars_of(to_lowercase(a).as_str());
    let lb = chars_of(to_lowercase(b).as_str());
    chars_eq(&la, &lb) || contains_chars(&la, &lb) || contains_chars(&lb, &la)
}

/// Matching titles does not depend on their order.
pub proof fn titles_match_symmetric(a: Seq<char>, b: Seq<char>)
    ensures
        titles_match(a, b) == titles_match(b, a),
{
}

/// Whether a stream of quality `q` may be played: it meets the minimum
/// `min`, or any stream may when `min` is `None`.
pub open spec fn allowed(min: Option<MinQuality>, q: Quality) -> bool {
    match min {
        Some(m) => m.spec_accepts(q),
        None => true,
    }
}

/// Index of the best allowed stream: the highest quality, the earliest
/// among streams of equal quality; `None` when no stream is allowed.
pub open spec fn best_where(s: Seq<StreamUrl>, min: Option<MinQuality>) -> Option<int>
    decreases s.len(),
{
    if s.len() == 0 {
        None
    } else {
        let prev = best_where(s.drop_last(), min);
        let last = s.len() - 1;
        if !allowed(min, s[last].quality) {
            prev
        } else {
            match prev {
                None => Some(last),
                Some(p) => if s[last].quality.rank() > s[p].quality.rank() {
                    Some(last)
                } else {
                    Some(p)
                },
            }
        }
    }
}

/// The stream to play: the best that meets the minimum quality, else the
/// best of all; none when there are no streams.
pub open spec fn picked(streams: Seq<StreamUrl>, min: MinQuality) -> Option<int> {
    match best_where(streams, Some(min)) {
        Some(i) => Some(i),
        None => best_where(streams, None),
    }
}

/// What `best_where` picks: an allowed stream of the highest quality among
/// the allowed ones, and no earlier allowed stream of that quality.
proof fn lemma_best_where(s: Seq<StreamUrl>, min: Option<MinQuality>)
    ensures
        match best_where(s, min) {
            Some(i) => {
                &&& 0 <= i < s.len()
                &&& allowed(min, s[i].quality)
                &&& forall|j: int|
                    0 <= j < s.len() && allowed(min, #[trigger] s[j].quality) ==> s[j].quality.rank()
                        <= s[i].quality.rank()
                &&& forall|j: int|
                    0 <= j < i && allowed(min, #[trigger] s[j].quality) ==> s[j].quality.rank()
                        < s[i].quality.rank()
            },
            None => forall|j: int| 0 <= j < s.len() ==> !allowed(min, #[trigger] s[j].quality),
        },
    decreases s.len(),
{
    if s.len() > 0 {
        let t = s.drop_last();
        lemma_best_where(t, min);
        assert forall|j: int| 0 <= j < t.len() implies t[j] == s[j] by {}
    }
}

/// The picked stream is one of the best that meet the minimum whenever any
/// meets it (the earliest of those), else one of the best of all; there is
/// one whenever there are streams.
pub proof fn picked_is_best_acceptable(streams: Seq<StreamUrl>, min: MinQuality)
    ensures
        (exists|j: int| 0 <= j < streams.len() && min.spec_accepts(#[trigger] streams[j].quality))
            ==> (picked(streams, min) matches Some(i) && 0 <= i < streams.len()
            && min.spec_accepts(streams[i].quality) && (forall|j: int|
            0 <= j < streams.len() && min.spec_accepts(#[trigger] streams[j].quality)
                ==> streams[j].quality.rank() <= streams[i].quality.rank()) && forall|j: int|
            0 <= j < i && min.spec_accepts(#[trigger] streams[j].quality)
                ==> streams[j].quality.rank() < streams[i].quality.rank()),
        (streams.len() > 0 && forall|j: int|
            0 <= j < streams.len() ==> !min.spec_accepts(#[trigger] streams[j].quality)) ==> (picked(
            streams,
            min,
        ) matches Some(i) && 0 <= i < streams.len() && (forall|j: int|
            0 <= j < streams.len() ==> (#[trigger] streams[j]).quality.rank()
                <= streams[i].quality.rank()) && forall|j: int|
            0 <= j < i ==> (#[trigger] streams[j]).quality.rank() < streams[i].quality.rank()),
        streams.len() > 0 <==> picked(streams, min) is Some,
{
    lemma_best_where(streams, Some(min));
    lemma_best_where(streams, None);
    if exists|j: int| 0 <= j < streams.len() && min.spec_accepts(#[trigger] streams[j].quality) {
        let j = choose|j: int| 0 <= j < streams.len() && min.spec_accepts(#[trigger] streams[j].quality);
        assert(allowed(Some(min), streams[j].quality));
    }
    if streams.len() > 0 {
        assert(allowed(None, streams[0].quality));
    }
}

fn rank_of(q: Quality) -> (r: u8)
    ensures
        r == q.rank(),
{
    match q {
        Quality::Unknown => 0,
        Quality::P360 => 1,
        Quality::P480 => 2,
        Quality::P720 => 3,
        Quality::P1080 => 4,
    }
}

/// An index as an integer.
pub open spec fn index_of(o: Option<usize>) -> Option<int> {
    match o {
        Some(i) => Some(i as int),
        None => None,
    }
}

/// Pick the best stream that meets the minimum quality; when none meets
/// it, the best available stream. Among streams of equal quality the one
/// listed first is taken.
pub fn pick_stream(streams: &Vec<StreamUrl>, min_quality: MinQuality) -> (r: Option<usize>)
    ensures
        match r {
            Some(i) => i < streams@.len() && picked(streams@, min_quality) == Some(i as int),
            None => picked(streams@, min_quality) is None,
        },
{
    let n = streams.len();
    let mut best_ok: Option<usize> = None;
    let mut best_any: Option<usize> = None;
    for i in 0..n
        invariant
            n == streams.len(),
            index_of(best_ok) == best_where(streams@.take(i as int), Some(min_quality)),
            index_of(best_any) == best_where(streams@.take(i as int), None),
            best_ok matches Some(b) ==> b < i,
            best_any matches Some(b) ==> b < i,
    {
        let ghost t = streams@.take(i + 1);
        assert(t.drop_last() =~= streams@.take(i as int));
        assert(t[i as int] == streams@[i as int]);
        let q = streams[i].quality;
        let r = rank_of(q);
        best_any = match best_any {
            None => Some(i),
            Some(p) => {
                assert(t[p as int] == streams@[p as int]);
                if r > rank_of(streams[p].quality) {
                    Some(i)
                } else {
                    Some(p)
                }
            },
        };
        if min_quality.accepts(q) {
            best_ok = match best_ok {
                None => Some(i),
                Some(p) => {
                    assert(t[p as int] == streams@[p as int]);
                    if r > rank_of(streams[p].quality) {
                        Some(i)
                    } else {
                        Some(p)
                    }
                },
            };
        }
    }
    assert(streams@.take(n as int) =~= streams@);
    match best_ok {
        Some(i) => Some(i),
        None => best_any,
    }
}

/// The first metadata record whose title matches `title`.
pub open spec fn first_match(meta: Seq<Anime>, title: Seq<char>) -> Option<Anime>
    decreases meta.len(),
{
    if meta.len() == 0 {
        None
    } else if titles_match(meta[0].title@, title) {
        Some(meta[0])
    } else {
        first_match(meta.skip(1), title)
    }
}

/// `r` is `a` with synopsis, poster, genres and rating taken from `m`.
pub open spec fn enriched_from(r: Anime, a: Anime, m: Anime) -> bool {
    &&& r.id == a.id
    &&& r.title == a.title
    &&& r.episode_count == a.episode_count
    &&& r.synopsis == m.synopsis
    &&& r.poster_url == m.poster_url
    &&& r.genres@ == m.genres@
    &&& r.rating == m.rating
}

/// `r` is `a` enriched from the first matching record of `meta`, or `a`
/// itself when no record matches.
pub open spec fn enrichment(r: Anime, a: Anime, meta: Seq<Anime>) -> bool {
    match first_match(meta, a.title@) {
        Some(m) => enriched_from(r, a, m),
        None => r == a,
    }
}

fn find_match(meta: &Vec<Anime>, title: &String) -> (r: Option<usize>)
    ensures
        match r {
            Some(k) => k < meta.len() && first_match(meta@, title@) == Some(meta@[k as int]),
            None => first_match(meta@, title@) is None,
        },
{
    let n = meta.len();
    let mut i: usize = 0;
    assert(meta@.skip(0) =~= meta@);
    while i < n
        invariant
            n == meta.len(),
            i <= n,
            first_match(meta@, title@) == first_match(meta@.skip(i as int), title@),
        decreases n - i,
    {
        assert(meta@.skip(i as int)[0] == meta@[i as int]);
        if fuzzy_match(meta[i].title.as_str(), title.as_str()) {
            return Some(i);
        }
        assert(meta@.skip(i as int).skip(1) =~= meta@.skip(i + 1));
        i = i + 1;
    }
    None
}

/// Enrich each search result with metadata from the first record whose
/// title matches.
pub fn enrich_results(results: &mut Vec<Anime>, meta: &Vec<Anime>)
    ensures
        final(results)@.len() == old(results)@.len(),
        forall|i: int|
            0 <= i < old(results)@.len() ==> enrichment(
                #[trigger] final(results)@[i],
                old(results)@[i],
                meta@,
            ),
{
    let n = results.len();
    let ghost before = results@;
    for i in 0..n
        invariant
            n == results.len(),
            n == before.len(),
            forall|j: int| 0 <= j < i ==> enrichment(#[trigger] results@[j], before[j], meta@),
            forall|j: int| i <= j < n ==> results@[j] == before[j],
    {
        if let Some(k) = find_match(meta, &results[i].title) {
            let m = &meta[k];
            let mut a = results[i].clone();
            a.synopsis = clone_opt_string(&m.synopsis);
            a.poster_url = clone_opt_string(&m.poster_url);
            a.genres = clone_strings(&m.genres);
            a.rating = m.rating;
            results.set(i, a);
        }
    }
}


/// What selecting an episode leads to.
pub enum EpisodePlan {
    /// No anime is open or there is no such episode.
    Nothing,
    /// Streams were prefetched: play `options`, and report `streams`.
    Play { options: PlayOptions, streams: Vec<StreamUrl> },
    /// Streams were prefetched but none can be played.
    NoMatchingStream,
    /// Streams must be fetched first; `loading` is the text shown meanwhile.
    Fetch { show_id: String, episode: String, mode: String, title: String, loading: String },
}

/// What to do once the streams of an episode have been fetched.
pub enum FetchedPlan {
    Play { options: PlayOptions, streams: Vec<StreamUrl> },
    NoMatchingStream,
    NoStreams,
}

/// The media title handed to the player.
pub open spec fn media_title(title: Seq<char>, episode: Seq<char>) -> Seq<char> {
    title + " Episode "@ + episode
}

/// The text shown while the streams of an episode load.
pub open spec fn loading_text(title: Seq<char>, episode: Seq<char>) -> Seq<char> {
    title + " — Episode "@ + episode
}

/// The options for playing `stream` as episode `episode` of `title`.
pub open spec fn options_for(o: PlayOptions, stream: StreamUrl, title: Seq<char>, episode: Seq<char>) -> bool {
    &&& o.url == stream.url
    &&& o.title@ == media_title(title, episode)
    &&& o.referer == stream.referer
    &&& o.subtitle_path is None
}

fn play_options(stream: &StreamUrl, title: &String, episode: &String) -> (o: PlayOptions)
    ensures
        options_for(o, *stream, title@, episode@),
{
    let t = title.clone().concat(" Episode ").concat(episode.as_str());
    PlayOptions {
        url: stream.url.clone(),
        title: t,
        referer: clone_opt_string(&stream.referer),
        subtitle_path: None,
    }
}

/// Chooses the stream to play among freshly fetched ones.
pub fn plan_fetched(
    streams: Vec<StreamUrl>,
    min_quality: MinQuality,
    title: &String,
    episode: &String,
) -> (r: FetchedPlan)
    ensures
        streams@.len() == 0 <==> r is NoStreams,
        r is NoMatchingStream <==> (streams@.len() > 0 && picked(streams@, min_quality) is None),
        r matches FetchedPlan::Play { options, streams: s } ==> (s@ == streams@ && (picked(
            streams@,
            min_quality,
        ) matches Some(i) && options_for(options, streams@[i], title@, episode@))),
{
    if streams.len() == 0 {
        return FetchedPlan::NoStreams;
    }
    match pick_stream(&streams, min_quality) {
        Some(i) => {
            let options = play_options(&streams[i], title, episode);
            FetchedPlan::Play { options, streams }
        },
        None => FetchedPlan::NoMatchingStream,
    }
}

/// Plans playing episode `idx` of the open anime: from the prefetch cache
/// when its streams are there (taking them out of the cache), otherwise by
/// fetching them.
pub fn plan_episode(app: &mut App, idx: usize) -> (r: EpisodePlan)
    requires
        old(app)@.wf(),
    ensures
        final(app)@.wf(),
        match (old(app)@.selected_anime, idx < old(app)@.episodes.len()) {
            (Some(anime), true) => {
                let ep = episode_number_text(old(app)@.episodes[idx as int].number as int);
                &&& final(app)@ == (AppView {
                    stream_cache: remove_entry(old(app)@.stream_cache, ep),
                    ..old(app)@
                })
                &&& match lookup(old(app)@.stream_cache, ep) {
                    Some(streams) => match picked(streams@, old(app)@.config.general.min_quality) {
                        Some(i) => (r matches EpisodePlan::Play { options, streams: s } && s@
                            == streams@ && options_for(options, streams@[i], anime.title@, ep)),
                        None => r is NoMatchingStream,
                    },
                    None => (r matches EpisodePlan::Fetch { show_id, episode, mode, title, loading }
                        && show_id == anime.id && episode@ == ep && mode@ == crate::app_model::mode_text(
                        old(app)@.config,
                    ) && title == anime.title && loading@ == loading_text(anime.title@, ep)),
                }
            },
            _ => final(app)@ == old(app)@ && r is Nothing,
        },
{
    let (show_id, title, number) = match &app.selected_anime {
        Some(anime) => {
            if idx >= app.episodes.len() {
                return EpisodePlan::Nothing;
            }
            (anime.id.clone(), anime.title.clone(), app.episodes[idx].number)
        },
        None => {
            return EpisodePlan::Nothing;
        },
    };
    let ep_str = crate::number::format_episode_number(number);
    let min_quality = app.config.general.min_quality;
    let mode = String::from_str(app.mode_str());
    match app.take_cached_streams(&ep_str) {
        Some(streams) => match pick_stream(&streams, min_quality) {
            Some(i) => {
                let options = play_options(&streams[i], &title, &ep_str);
                EpisodePlan::Play { options, streams }
            },
            None => EpisodePlan::NoMatchingStream,
        },
        None => {
            let loading = title.clone().concat(" — Episode ").concat(ep_str.as_str());
            EpisodePlan::Fetch { show_id, episode: ep_str, mode, title, loading }
        },
    }
}

/// The episode texts whose streams are not cached yet, in order.
pub fn streams_to_fetch(app: &App, episodes: &Vec<String>) -> (r: Vec<String>)
    ensures
        r@ == episodes@.filter(|e: String| lookup(app@.stream_cache, e@) is None),
{
    let mut r: Vec<String> = Vec::new();
    let n = episodes.len();
    let ghost pred = |e: String| lookup(app@.stream_cache, e@) is None;
    for i in 0..n
        invariant
            n == episodes.len(),
            pred == (|e: String| lookup(app@.stream_cache, e@) is None),
            r@ == episodes@.take(i as int).filter(pred),
    {
        let cached = app.has_cached_streams(&episodes[i]);
        assert(episodes@.take(i + 1).drop_last() =~= episodes@.take(i as int));
        reveal_with_fuel(Seq::filter, 1);
        if !cached {
            r.push(episodes[i].clone());
        }
    }
    assert(episodes@.take(n as int) =~= episodes@);
    r
}

/// Whether to ask for the next page of an episode list: the page just read
/// had episodes and announced another page.
pub fn fetch_next_page(page: &Vec<crate::model::anime::Episode>, has_next: bool) -> (r: bool)
    ensures
        r == (page@.len() > 0 && has_next),
{
    page.len() > 0 && has_next
}

/// The MyAnimeList id whose episode details are fetched for a show: with
/// Jikan as the episode provider, the id of the first Jikan search result,
/// read as an integer; `None` otherwise.
pub open spec fn mal_id_for(provider: MetadataProvider, found: Seq<Anime>) -> Option<i64> {
    if provider == MetadataProvider::Jikan && found.len() > 0 {
        int_value(found[0].id@)
    } else {
        None
    }
}

/// Picks the MyAnimeList id to fetch episode details with.
pub fn mal_id_to_fetch(provider: MetadataProvider, found: &Vec<Anime>) -> (r: Option<i64>)
    ensures
        r == mal_id_for(provider, found@),
{
    if provider == MetadataProvider::Jikan && found.len() > 0 {
        parse_int(found[0].id.as_str())
    } else {
        None
    }
}

} // verus!
