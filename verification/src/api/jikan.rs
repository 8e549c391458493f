//! The Jikan (MyAnimeList) metadata source.

use vstd::prelude::*;

use crate::api::{or_else, somes, string_elems};
use crate::json::{
    array_of, as_array, as_bool, as_fixed, as_i64, as_str, as_text, as_u64, at, bool_of,
    deref_opt, fixed_of, get, i64_of, text_of, u64_of, Json,
};
use crate::model::anime::{
    anime_views, episode_views, opt_view, string_views, Anime, AnimeView, Episode, EpisodeView,
};
use crate::number::{int_text, int_to_text};
use crate::text::{chars_of, string_from_chars};

verus! {

/// The names of the genre objects of `arr`, in order.
pub open spec fn genre_names(arr: Seq<Json>) -> Seq<Seq<char>> {
    somes(arr.map_values(|g: Json| text_of(at(Some(g), "name"@))))
}

/// The anime that a Jikan anime object describes; it needs an integer
/// `mal_id` and an English or default title.
pub open spec fn anime(m: Json) -> Option<AnimeView> {
    let j = Some(m);
    let title = or_else(text_of(at(j, "title_english"@)), text_of(at(j, "title"@)));
    match (i64_of(at(j, "mal_id"@)), title) {
        (Some(id), Some(title)) => Some(AnimeView {
            id: int_text(id as int),
            title,
            synopsis: text_of(at(j, "synopsis"@)),
            poster_url: or_else(
                text_of(at(at(at(j, "images"@), "jpg"@), "large_image_url"@)),
                text_of(at(at(at(j, "images"@), "jpg"@), "image_url"@)),
            ),
            episode_count: match u64_of(at(j, "episodes"@)) {
                Some(n) => Some(n as u32),
                None => None,
            },
            genres: match array_of(at(j, "genres"@)) {
                Some(a) => genre_names(a),
                None => Seq::empty(),
            },
            rating: fixed_of(at(j, "score"@), 3),
        }),
        _ => None,
    }
}

/// A Jikan anime is read when it has an integer `mal_id` and an English or
/// default title. Its title is `title_english`; `title` is used only when
/// there is no English title.
pub proof fn anime_title_prefers_english(m: Json)
    ensures
        anime(m) is Some <==> (i64_of(at(Some(m), "mal_id"@)) is Some && (text_of(
            at(Some(m), "title_english"@),
        ) is Some || text_of(at(Some(m), "title"@)) is Some)),
        anime(m) is Some && text_of(at(Some(m), "title_english"@)) is Some ==> anime(m)->0.title
            == text_of(at(Some(m), "title_english"@))->0,
        anime(m) is Some && text_of(at(Some(m), "title_english"@)) is None ==> anime(m)->0.title
            == text_of(at(Some(m), "title"@))->0,
{
}

/// The anime of a Jikan search response, skipping those that do not parse.
pub open spec fn search_results(resp: Json) -> Seq<AnimeView> {
    match array_of(at(Some(resp), "data"@)) {
        Some(items) => somes(items.map_values(|m: Json| anime(m))),
        None => Seq::empty(),
    }
}

/// The date part of an ISO 8601 timestamp: the text before the first 'T'.
pub open spec fn date_part(s: Seq<char>) -> Seq<char> {
    s.take(first_index_of(s, 'T'))
}

/// Index of the first `c` in `s`, or its length.
pub open spec fn first_index_of(s: Seq<char>, c: char) -> int
    decreases s.len(),
{
    if s.len() == 0 {
        0
    } else if s[0] == c {
        0
    } else {
        1 + first_index_of(s.skip(1), c)
    }
}

/// One Jikan episode object; `fallback` is the number used when it has none.
pub open spec fn episode(ep: Json, fallback: i64) -> EpisodeView {
    let j = Some(ep);
    EpisodeView {
        number: match fixed_of(at(j, "mal_id"@), 3) {
            Some(n) => n,
            None => fallback,
        },
        title: text_of(at(j, "title"@)),
        synopsis: text_of(at(j, "synopsis"@)),
        is_filler: match bool_of(at(j, "filler"@)) {
            Some(b) => b,
            None => false,
        },
        aired: match text_of(at(j, "aired"@)) {
            Some(s) => Some(date_part(s)),
            None => None,
        },
    }
}

/// The episodes of one page of a Jikan episode list.
pub open spec fn page_episodes(resp: Json) -> Seq<EpisodeView> {
    match array_of(at(Some(resp), "data"@)) {
        Some(items) => items.map_values(|e: Json| episode(e, 0)),
        None => Seq::empty(),
    }
}

/// Whether the Jikan response says another page follows.
pub open spec fn has_next_page(resp: Json) -> bool {
    match bool_of(at(at(Some(resp), "pagination"@), "has_next_page"@)) {
        Some(b) => b,
        None => false,
    }
}

proof fn lemma_first_index_of(s: Seq<char>, c: char)
    ensures
        0 <= first_index_of(s, c) <= s.len(),
        forall|j: int| 0 <= j < first_index_of(s, c) ==> s[j] != c,
        first_index_of(s, c) < s.len() ==> s[first_index_of(s, c)] == c,
    decreases s.len(),
{
    if s.len() > 0 && s[0] != c {
        lemma_first_index_of(s.skip(1), c);
        assert forall|j: int| 0 <= j < first_index_of(s, c) implies s[j] != c by {
            if j > 0 {
                assert(s[j] == s.skip(1)[j - 1]);
            }
        }
    }
}

/// The text before the first 'T' of an ISO 8601 timestamp.
pub fn date_of(s: &String) -> (r: String)
    ensures
        r@ == date_part(s@),
{
    let v = chars_of(s.as_str());
    proof {
        lemma_first_index_of(v@, 'T');
    }
    let mut out: Vec<char> = Vec::new();
    let n = v.len();
    let mut i: usize = 0;
    while i < n && v[i] != 'T'
        invariant
            n == v.len(),
            i <= n,
            out@ == v@.take(i as int),
            forall|j: int| 0 <= j < i ==> v@[j] != 'T',
            0 <= first_index_of(v@, 'T') <= v@.len(),
            forall|j: int| 0 <= j < first_index_of(v@, 'T') ==> v@[j] != 'T',
            first_index_of(v@, 'T') < v@.len() ==> v@[first_index_of(v@, 'T')] == 'T',
        decreases n - i,
    {
        out.push(v[i]);
        assert(v@.take(i + 1) == v@.take(i as int).push(v@[i as int]));
        i = i + 1;
    }
    assert(i == first_index_of(v@, 'T'));
    string_from_chars(&out)
}

/// Reads one Jikan anime object.
pub fn parse_anime(m: &Json) -> (r: Option<Anime>)
    ensures
        match r {
            Some(a) => anime(*m) == Some(a@),
            None => anime(*m) is None,
        },
{
    let j = Some(m);
    let id = match as_i64(get(j, "mal_id")) {
        Some(id) => id,
        None => {
            return None;
        },
    };
    let title = match as_text(get(j, "title_english")) {
        Some(t) => t,
        None => match as_text(get(j, "title")) {
            Some(t) => t,
            None => {
                return None;
            },
        },
    };
    let synopsis = as_text(get(j, "synopsis"));
    let jpg = get(get(j, "images"), "jpg");
    let poster_url = match as_text(get(jpg, "large_image_url")) {
        Some(u) => Some(u),
        None => as_text(get(jpg, "image_url")),
    };
    let episode_count = match as_u64(get(j, "episodes")) {
        Some(n) => Some(n as u32),
        None => None,
    };
    let genres = match as_array(get(j, "genres")) {
        Some(a) => names_in(a),
        None => Vec::new(),
    };
    let rating = as_fixed(get(j, "score"), 3);
    let id_text = int_to_text(id);
    let a = Anime {
        id: string_from_chars(&id_text),
        title,
        synopsis,
        poster_url,
        episode_count,
        genres,
        rating,
    };
    assert(string_views(a.genres@) =~= (match array_of(at(Some(*m), "genres"@)) {
        Some(arr) => genre_names(arr),
        None => Seq::<Seq<char>>::empty(),
    }));
    Some(a)
}

/// The `name` members of the objects of a JSON array.
fn names_in(arr: &Vec<Json>) -> (r: Vec<String>)
    ensures
        string_views(r@) == genre_names(arr@),
{
    let mut r: Vec<String> = Vec::new();
    let n = arr.len();
    let ghost f = |g: Json| text_of(at(Some(g), "name"@));
    for i in 0..n
        invariant
            n == arr.len(),
            f == (|g: Json| text_of(at(Some(g), "name"@))),
            string_views(r@) == somes(arr@.map_values(f).take(i as int)),
    {
        let ghost before = r@;
        proof {
            crate::api::lemma_somes_step(arr@.map_values(f), i as int);
        }
        if let Some(s) = as_str(get(Some(&arr[i]), "name")) {
            r.push(s.clone());
            assert(string_views(r@) =~= string_views(before) + seq![s@]);
        } else {
            assert(string_views(r@) =~= string_views(before) + Seq::<Seq<char>>::empty());
        }
    }
    assert(arr@.map_values(f).take(n as int) =~= arr@.map_values(f));
    r
}

/// Reads the anime of a Jikan search response.
pub fn parse_search(resp: &Json) -> (r: Vec<Anime>)
    ensures
        anime_views(r@) == search_results(*resp),
{
    let items = match as_array(get(Some(resp), "data")) {
        Some(items) => items,
        None => {
            return Vec::new();
        },
    };
    let mut r: Vec<Anime> = Vec::new();
    let n = items.len();
    let ghost f = |m: Json| anime(m);
    for i in 0..n
        invariant
            n == items.len(),
            f == (|m: Json| anime(m)),
            anime_views(r@) == somes(items@.map_values(f).take(i as int)),
    {
        let ghost before = r@;
        proof {
            crate::api::lemma_somes_step(items@.map_values(f), i as int);
        }
        match parse_anime(&items[i]) {
            Some(a) => {
                r.push(a);
                assert(anime_views(r@) =~= anime_views(before) + seq![a@]);
            },
            None => {
                assert(anime_views(r@) =~= anime_views(before) + Seq::<AnimeView>::empty());
            },
        }
    }
    assert(items@.map_values(f).take(n as int) =~= items@.map_values(f));
    r
}

/// Reads the `data` object of a Jikan detail response.
pub fn parse_detail(resp: &Json) -> (r: Option<Anime>)
    ensures
        match r {
            Some(a) => at(Some(*resp), "data"@) matches Some(m) && anime(m) == Some(a@),
            None => at(Some(*resp), "data"@) matches Some(m) ==> anime(m) is None,
        },
{
    match get(Some(resp), "data") {
        Some(m) => parse_anime(m),
        None => None,
    }
}

/// Reads one Jikan episode object; `fallback` is the number (in
/// thousandths) used when the object has none.
pub fn parse_episode(ep: &Json, fallback: i64) -> (r: Episode)
    ensures
        r@ == episode(*ep, fallback),
{
    let j = Some(ep);
    let number = match as_fixed(get(j, "mal_id"), 3) {
        Some(n) => n,
        None => fallback,
    };
    let aired = match as_str(get(j, "aired")) {
        Some(s) => Some(date_of(s)),
        None => None,
    };
    Episode {
        number,
        title: as_text(get(j, "title")),
        synopsis: as_text(get(j, "synopsis")),
        is_filler: match as_bool(get(j, "filler")) {
            Some(b) => b,
            None => false,
        },
        aired,
    }
}

/// Reads one page of a Jikan episode list: its episodes, and whether
/// another page follows.
pub fn parse_episode_page(resp: &Json) -> (r: (Vec<Episode>, bool))
    ensures
        episode_views(r.0@) == page_episodes(*resp),
        r.1 == has_next_page(*resp),
{
    let has_next = match as_bool(get(get(Some(resp), "pagination"), "has_next_page")) {
        Some(b) => b,
        None => false,
    };
    let items = match as_array(get(Some(resp), "data")) {
        Some(items) => items,
        None => {
            return (Vec::new(), has_next);
        },
    };
    let mut r: Vec<Episode> = Vec::new();
    let n = items.len();
    for i in 0..n
        invariant
            n == items.len(),
            r@.len() == i,
            forall|k: int| 0 <= k < i ==> (#[trigger] r@[k])@ == episode(items@[k], 0),
    {
        r.push(parse_episode(&items[i], 0));
    }
    assert(episode_views(r@) =~= items@.map_values(|e: Json| episode(e, 0)));
    (r, has_next)
}

/// Reads a Jikan single-episode response; `episode_number` (in thousandths)
/// is used when the response gives no number.
pub fn parse_episode_detail(resp: &Json, episode_number: i64) -> (r: Episode)
    ensures
        r@ == episode(
            match at(Some(*resp), "data"@) {
                Some(d) => d,
                None => Json::Null,
            },
            episode_number,
        ),
{
    match get(Some(resp), "data") {
        Some(d) => parse_episode(d, episode_number),
        None => parse_episode(&Json::Null, episode_number),
    }
}

} // verus!
