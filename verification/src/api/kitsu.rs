//! The Kitsu (JSON:API) metadata source.

use vstd::prelude::*;

use crate::api::{or_else, somes};
use crate::app_model::{insert_entry, key_pos, lemma_key_pos, lookup};
use crate::json::{
    array_of, as_array, as_fixed, as_str, as_string, as_text, as_u64, at, deref_opt, fixed_of, get,
    string_val, text_of, u64_of, Json,
};
use crate::model::anime::{
    anime_views, episode_views, opt_view, string_views, Anime, AnimeView, Episode, EpisodeView,
};
use crate::number::parse_fixed;
use crate::text::{chars_of, str_eq};

verus! {

/// The genre names of the `included` resources, by resource id; a later
/// resource with the same id replaces an earlier one.
pub open spec fn genre_map(items: Seq<Json>) -> Seq<(String, String)>
    decreases items.len(),
{
    if items.len() == 0 {
        Seq::empty()
    } else {
        let m = genre_map(items.drop_last());
        let it = Some(items.last());
        if text_of(at(it, "type"@)) == Some("genres"@) {
            match (string_val(at(it, "id"@)), string_val(at(at(it, "attributes"@), "name"@))) {
                (Some(id), Some(name)) => insert_entry(m, id, name),
                _ => m,
            }
        } else {
            m
        }
    }
}

/// The genre map of a Kitsu response.
pub open spec fn response_genres(resp: Json) -> Seq<(String, String)> {
    match array_of(at(Some(resp), "included"@)) {
        Some(items) => genre_map(items),
        None => Seq::empty(),
    }
}

/// The name of the genre that a relationship entry points to.
pub open spec fn related_genre(g: Json, map: Seq<(String, String)>) -> Option<Seq<char>> {
    match text_of(at(Some(g), "id"@)) {
        Some(id) => match lookup(map, id) {
            Some(name) => Some(name@),
            None => None,
        },
        None => None,
    }
}

/// The anime that a Kitsu anime resource describes; it needs a string id
/// and a title. The average rating out of 100 becomes a rating out of 10.
pub open spec fn anime(item: Json, map: Seq<(String, String)>) -> Option<AnimeView> {
    let j = Some(item);
    let attrs = at(j, "attributes"@);
    let titles = at(attrs, "titles"@);
    let title = or_else(
        text_of(at(titles, "en"@)),
        or_else(
            text_of(at(titles, "en_us"@)),
            or_else(text_of(at(titles, "en_jp"@)), text_of(at(attrs, "canonicalTitle"@))),
        ),
    );
    match (text_of(at(j, "id"@)), title) {
        (Some(id), Some(title)) => Some(AnimeView {
            id,
            title,
            synopsis: text_of(at(attrs, "synopsis"@)),
            poster_url: or_else(
                text_of(at(at(attrs, "posterImage"@), "large"@)),
                text_of(at(at(attrs, "posterImage"@), "original"@)),
            ),
            episode_count: match u64_of(at(attrs, "episodeCount"@)) {
                Some(n) => Some(n as u32),
                None => None,
            },
            genres: match array_of(at(at(at(j, "relationships"@), "genres"@), "data"@)) {
                Some(a) => somes(a.map_values(|g: Json| related_genre(g, map))),
                None => Seq::empty(),
            },
            rating: match text_of(at(attrs, "averageRating"@)) {
                Some(t) => parse_fixed(t, 2),
                None => None,
            },
        }),
        _ => None,
    }
}

/// A Kitsu resource is read when it has a string id and a title. Its title
/// is the first of the `en`, `en_us` and `en_jp` titles that is present,
/// and the canonical title only when none of them is.
pub proof fn anime_title_prefers_english(item: Json, map: Seq<(String, String)>)
    ensures
        ({
            let attrs = at(Some(item), "attributes"@);
            let en = text_of(at(at(attrs, "titles"@), "en"@));
            let en_us = text_of(at(at(attrs, "titles"@), "en_us"@));
            let en_jp = text_of(at(at(attrs, "titles"@), "en_jp"@));
            let canonical = text_of(at(attrs, "canonicalTitle"@));
            &&& anime(item, map) is Some <==> (text_of(at(Some(item), "id"@)) is Some && (en is Some
                || en_us is Some || en_jp is Some || canonical is Some))
            &&& anime(item, map) is Some && en is Some ==> anime(item, map)->0.title == en->0
            &&& anime(item, map) is Some && en is None && en_us is Some ==> anime(item, map)->0.title
                == en_us->0
            &&& anime(item, map) is Some && en is None && en_us is None && en_jp is Some ==> anime(
                item,
                map,
            )->0.title == en_jp->0
            &&& anime(item, map) is Some && en is None && en_us is None && en_jp is None ==> anime(
                item,
                map,
            )->0.title == canonical->0
        }),
{
}

/// The anime of a Kitsu search response, skipping those that do not parse.
pub open spec fn search_results(resp: Json) -> Seq<AnimeView> {
    match array_of(at(Some(resp), "data"@)) {
        Some(items) => somes(items.map_values(|m: Json| anime(m, response_genres(resp)))),
        None => Seq::empty(),
    }
}

/// One Kitsu episode resource.
pub open spec fn episode(item: Json) -> EpisodeView {
    let attrs = at(Some(item), "attributes"@);
    EpisodeView {
        number: match fixed_of(at(attrs, "number"@), 3) {
            Some(n) => n,
            None => 0,
        },
        title: text_of(at(attrs, "canonicalTitle"@)),
        synopsis: text_of(at(attrs, "synopsis"@)),
        is_filler: false,
        aired: text_of(at(attrs, "airdate"@)),
    }
}

/// The episodes of one page of a Kitsu episode list.
pub open spec fn page_episodes(resp: Json) -> Seq<EpisodeView> {
    match array_of(at(Some(resp), "data"@)) {
        Some(items) => items.map_values(|e: Json| episode(e)),
        None => Seq::empty(),
    }
}

/// Whether the Kitsu response links a next page.
pub open spec fn has_next_page(resp: Json) -> bool {
    text_of(at(at(Some(resp), "links"@), "next"@)) is Some
}

/// Stores `name` under `id`, replacing an earlier entry.
fn insert_genre(map: &mut Vec<(String, String)>, id: String, name: String)
    ensures
        final(map)@ == insert_entry(old(map)@, id, name),
{
    proof {
        lemma_key_pos(map@, id@);
    }
    let n = map.len();
    for i in 0..n
        invariant
            n == map.len(),
            map@ == old(map)@,
            forall|k: int| 0 <= k < i ==> map@[k].0@ != id@,
            match key_pos(map@, id@) {
                Some(p) => 0 <= p < map@.len() && map@[p].0@ == id@ && forall|k: int|
                    0 <= k < p ==> map@[k].0@ != id@,
                None => forall|k: int| 0 <= k < map@.len() ==> map@[k].0@ != id@,
            },
    {
        if str_eq(map[i].0.as_str(), id.as_str()) {
            assert(key_pos(map@, id@) == Some(i as int));
            map.set(i, (id, name));
            return;
        }
    }
    map.push((id, name));
}

/// Builds the map from genre resource ids to genre names.
pub fn build_genre_map(resp: &Json) -> (r: Vec<(String, String)>)
    ensures
        r@ == response_genres(*resp),
{
    let mut map: Vec<(String, String)> = Vec::new();
    let items = match as_array(get(Some(resp), "included")) {
        Some(items) => items,
        None => {
            return map;
        },
    };
    let n = items.len();
    for i in 0..n
        invariant
            n == items.len(),
            map@ == genre_map(items@.take(i as int)),
    {
        proof {
            assert(items@.take(i + 1).drop_last() =~= items@.take(i as int));
            assert(items@.take(i + 1).last() == items@[i as int]);
        }
        let it = Some(&items[i]);
        let is_genre = match as_str(get(it, "type")) {
            Some(t) => str_eq(t.as_str(), "genres"),
            None => false,
        };
        if is_genre {
            match (as_string(get(it, "id")), as_string(get(get(it, "attributes"), "name"))) {
                (Some(id), Some(name)) => insert_genre(&mut map, id, name),
                _ => {},
            }
        }
    }
    assert(items@.take(n as int) =~= items@);
    map
}

/// The genre name that a relationship entry points to.
fn related_genre_exec(g: &Json, map: &Vec<(String, String)>) -> (r: Option<String>)
    ensures
        opt_view(r) == related_genre(*g, map@),
{
    let id = match as_str(get(Some(g), "id")) {
        Some(id) => id,
        None => {
            return None;
        },
    };
    proof {
        lemma_key_pos(map@, id@);
    }
    let n = map.len();
    for i in 0..n
        invariant
            n == map.len(),
            text_of(at(Some(*g), "id"@)) == Some(id@),
            forall|k: int| 0 <= k < i ==> map@[k].0@ != id@,
            match key_pos(map@, id@) {
                Some(p) => 0 <= p < map@.len() && map@[p].0@ == id@ && forall|k: int|
                    0 <= k < p ==> map@[k].0@ != id@,
                None => forall|k: int| 0 <= k < map@.len() ==> map@[k].0@ != id@,
            },
    {
        if str_eq(map[i].0.as_str(), id.as_str()) {
            assert(key_pos(map@, id@) == Some(i as int));
            return Some(map[i].1.clone());
        }
    }
    None
}

/// The names of the genres that the relationship entries point to.
fn related_genres(arr: &Vec<Json>, genre_map: &Vec<(String, String)>) -> (r: Vec<String>)
    ensures
        string_views(r@) == somes(arr@.map_values(|g: Json| related_genre(g, genre_map@))),
{
    let mut genres: Vec<String> = Vec::new();
    let n = arr.len();
    let ghost f = |g: Json| related_genre(g, genre_map@);
    for i in 0..n
        invariant
            n == arr.len(),
            f == (|g: Json| related_genre(g, genre_map@)),
            string_views(genres@) == somes(arr@.map_values(f).take(i as int)),
    {
        let ghost before = genres@;
        proof {
            crate::api::lemma_somes_step(arr@.map_values(f), i as int);
        }
        match related_genre_exec(&arr[i], genre_map) {
            Some(name) => {
                genres.push(name);
                assert(string_views(genres@) =~= string_views(before) + seq![name@]);
            },
            None => {
                assert(string_views(genres@) =~= string_views(before) + Seq::<Seq<char>>::empty());
            },
        }
    }
    assert(arr@.map_values(f).take(n as int) =~= arr@.map_values(f));
    genres
}

/// Reads one Kitsu anime resource, naming its genres from `genre_map`.
pub fn parse_anime(item: &Json, genre_map: &Vec<(String, String)>) -> (r: Option<Anime>)
    ensures
        match r {
            Some(a) => anime(*item, genre_map@) == Some(a@),
            None => anime(*item, genre_map@) is None,
        },
{
    let j = Some(item);
    let id = match as_text(get(j, "id")) {
        Some(id) => id,
        None => {
            return None;
        },
    };
    let attrs = get(j, "attributes");
    let titles = get(attrs, "titles");
    let title = match as_text(get(titles, "en")) {
        Some(t) => t,
        None => match as_text(get(titles, "en_us")) {
            Some(t) => t,
            None => match as_text(get(titles, "en_jp")) {
                Some(t) => t,
                None => match as_text(get(attrs, "canonicalTitle")) {
                    Some(t) => t,
                    None => {
                        return None;
                    },
                },
            },
        },
    };
    let poster = get(attrs, "posterImage");
    let poster_url = match as_text(get(poster, "large")) {
        Some(u) => Some(u),
        None => as_text(get(poster, "original")),
    };
    let episode_count = match as_u64(get(attrs, "episodeCount")) {
        Some(n) => Some(n as u32),
        None => None,
    };
    let genres = match as_array(get(get(get(j, "relationships"), "genres"), "data")) {
        Some(arr) => related_genres(arr, genre_map),
        None => Vec::new(),
    };
    let rating = match as_str(get(attrs, "averageRating")) {
        Some(t) => {
            let v = chars_of(t.as_str());
            crate::number::parse_fixed_chars(&v, 2)
        },
        None => None,
    };
    let ghost ja = at(Some(*item), "attributes"@);
    assert(deref_opt(attrs) == ja);
    assert(opt_view(poster_url) == or_else(
                text_of(at(at(ja, "posterImage"@), "large"@)),
                text_of(at(at(ja, "posterImage"@), "original"@)),
            ));
    assert(rating == match text_of(at(ja, "averageRating"@)) {
                Some(t) => parse_fixed(t, 2),
                None => None,
            });
    assert(string_views(genres@) == match array_of(at(at(at(Some(*item), "relationships"@), "genres"@), "data"@)) {
                Some(a) => somes(a.map_values(|g: Json| related_genre(g, genre_map@))),
                None => Seq::<Seq<char>>::empty(),
            });
    let a = Anime {
        id,
        title,
        synopsis: as_text(get(attrs, "synopsis")),
        poster_url,
        episode_count,
        genres,
        rating,
    };
    Some(a)
}

/// Reads the anime of a Kitsu search response.
pub fn parse_search(resp: &Json) -> (r: Vec<Anime>)
    ensures
        anime_views(r@) == search_results(*resp),
{
    let map = build_genre_map(resp);
    let items = match as_array(get(Some(resp), "data")) {
        Some(items) => items,
        None => {
            return Vec::new();
        },
    };
    let mut r: Vec<Anime> = Vec::new();
    let n = items.len();
    let ghost f = |m: Json| anime(m, response_genres(*resp));
    for i in 0..n
        invariant
            n == items.len(),
            map@ == response_genres(*resp),
            f == (|m: Json| anime(m, response_genres(*resp))),
            anime_views(r@) == somes(items@.map_values(f).take(i as int)),
    {
        let ghost before = r@;
        proof {
            crate::api::lemma_somes_step(items@.map_values(f), i as int);
        }
        match parse_anime(&items[i], &map) {
            Some(a) => {
                r.push(a);
                assert(anime_views(r@) =~= anime_views(before) + seq![a@]);
            },
            None => {
                assert(anime_views(r@) =~= anime_views(before) + Seq::<AnimeView>::empty());
            },
        }
    }
    assert(items@.map_values(f).take(n as int) =~= items@.map_values(f));
    r
}

/// Reads the `data` resource of a Kitsu detail response.
pub fn parse_detail(resp: &Json) -> (r: Option<Anime>)
    ensures
        match r {
            Some(a) => at(Some(*resp), "data"@) matches Some(m) && anime(m, response_genres(*resp))
                == Some(a@),
            None => at(Some(*resp), "data"@) matches Some(m) ==> anime(m, response_genres(*resp)) is None,
        },
{
    let map = build_genre_map(resp);
    match get(Some(resp), "data") {
        Some(m) => parse_anime(m, &map),
        None => None,
    }
}

/// Reads one Kitsu episode resource.
pub fn parse_episode(item: &Json) -> (r: Episode)
    ensures
        r@ == episode(*item),
{
    let attrs = get(Some(item), "attributes");
    Episode {
        number: match as_fixed(get(attrs, "number"), 3) {
            Some(n) => n,
            None => 0,
        },
        title: as_text(get(attrs, "canonicalTitle")),
        synopsis: as_text(get(attrs, "synopsis")),
        is_filler: false,
        aired: as_text(get(attrs, "airdate")),
    }
}

/// Reads one page of a Kitsu episode list: its episodes, and whether a
/// next page is linked.
pub fn parse_episode_page(resp: &Json) -> (r: (Vec<Episode>, bool))
    ensures
        episode_views(r.0@) == page_episodes(*resp),
        r.1 == has_next_page(*resp),
{
    let has_next = as_str(get(get(Some(resp), "links"), "next")).is_some();
    let items = match as_array(get(Some(resp), "data")) {
        Some(items) => items,
        None => {
            return (Vec::new(), has_next);
        },
    };
    let mut r: Vec<Episode> = Vec::new();
    let n = items.len();
    for i in 0..n
        invariant
            n == items.len(),
            r@.len() == i,
            forall|k: int| 0 <= k < i ==> (#[trigger] r@[k])@ == episode(items@[k]),
    {
        r.push(parse_episode(&items[i]));
    }
    assert(episode_views(r@) =~= items@.map_values(|e: Json| episode(e)));
    (r, has_next)
}

} // verus!
