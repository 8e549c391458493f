//! The AniList GraphQL metadata source.

use vstd::prelude::*;

use crate::api::{or_else, replace_text, somes, string_elems, strings_in};
use crate::json::{
    array_of, as_array, as_fixed, as_i64, as_str, as_text, as_u64, at, deref_opt, fixed_of, get,
    i64_of, text_of, u64_of, Json,
};
use crate::model::anime::{anime_views, opt_view, string_views, Anime, AnimeView};
use crate::number::{int_text, int_to_text};
use crate::text::{replace_all, string_from_chars};

verus! {

/// AniList descriptions with the HTML line breaks and emphasis removed.
pub open spec fn clean_description(s: Seq<char>) -> Seq<char> {
    let s1 = replace_all(s, "<br>"@, "\n"@);
    let s2 = replace_all(s1, "<br/>"@, "\n"@);
    let s3 = replace_all(s2, "<i>"@, ""@);
    let s4 = replace_all(s3, "</i>"@, ""@);
    let s5 = replace_all(s4, "<b>"@, ""@);
    replace_all(s5, "</b>"@, ""@)
}

/// The anime that an AniList `Media` object describes; it needs an integer
/// id and an English or romaji title. The score out of 100 becomes a
/// rating out of 10.
pub open spec fn media(m: Json) -> Option<AnimeView> {
    let j = Some(m);
    let title = or_else(text_of(at(at(j, "title"@), "english"@)), text_of(at(at(j, "title"@), "romaji"@)));
    match (i64_of(at(j, "id"@)), title) {
        (Some(id), Some(title)) => Some(AnimeView {
            id: int_text(id as int),
            title,
            synopsis: match text_of(at(j, "description"@)) {
                Some(d) => Some(clean_description(d)),
                None => None,
            },
            poster_url: or_else(
                text_of(at(at(j, "coverImage"@), "extraLarge"@)),
                text_of(at(at(j, "coverImage"@), "large"@)),
            ),
            episode_count: match u64_of(at(j, "episodes"@)) {
                Some(n) => Some(n as u32),
                None => None,
            },
            genres: match array_of(at(j, "genres"@)) {
                Some(a) => string_elems(a),
                None => Seq::empty(),
            },
            rating: fixed_of(at(j, "averageScore"@), 2),
        }),
        _ => None,
    }
}

/// An AniList entry is read when it has an integer id and an English or
/// romaji title. Its title is the English one; the romaji title is used
/// only when there is no English title.
pub proof fn media_title_prefers_english(m: Json)
    ensures
        media(m) is Some <==> (i64_of(at(Some(m), "id"@)) is Some && (text_of(
            at(at(Some(m), "title"@), "english"@),
        ) is Some || text_of(at(at(Some(m), "title"@), "romaji"@)) is Some)),
        media(m) is Some && text_of(at(at(Some(m), "title"@), "english"@)) is Some ==> media(m)->0.title
            == text_of(at(at(Some(m), "title"@), "english"@))->0,
        media(m) is Some && text_of(at(at(Some(m), "title"@), "english"@)) is None ==> media(m)->0.title
            == text_of(at(at(Some(m), "title"@), "romaji"@))->0,
{
}

/// The anime of an AniList search response, skipping those that do not parse.
pub open spec fn search_results(resp: Json) -> Seq<AnimeView> {
    match array_of(at(at(at(Some(resp), "data"@), "Page"@), "media"@)) {
        Some(items) => somes(items.map_values(|m: Json| media(m))),
        None => Seq::empty(),
    }
}

fn clean(d: &String) -> (r: String)
    ensures
        r@ == clean_description(d@),
{
    proof {
        reveal_strlit("<br>");
        reveal_strlit("<br/>");
        reveal_strlit("<i>");
        reveal_strlit("</i>");
        reveal_strlit("<b>");
        reveal_strlit("</b>");
    }
    let s1 = replace_text(d, "<br>", "\n");
    let s2 = replace_text(&s1, "<br/>", "\n");
    let s3 = replace_text(&s2, "<i>", "");
    let s4 = replace_text(&s3, "</i>", "");
    let s5 = replace_text(&s4, "<b>", "");
    replace_text(&s5, "</b>", "")
}

/// Reads one AniList `Media` object.
pub fn parse_media(m: &Json) -> (r: Option<Anime>)
    ensures
        match r {
            Some(a) => media(*m) == Some(a@),
            None => media(*m) is None,
        },
{
    let j = Some(m);
    let id = match as_i64(get(j, "id")) {
        Some(id) => id,
        None => {
            return None;
        },
    };
    let title = match as_text(get(get(j, "title"), "english")) {
        Some(t) => t,
        None => match as_text(get(get(j, "title"), "romaji")) {
            Some(t) => t,
            None => {
                return None;
            },
        },
    };
    let synopsis = match as_str(get(j, "description")) {
        Some(d) => Some(clean(d)),
        None => None,
    };
    let poster_url = match as_text(get(get(j, "coverImage"), "extraLarge")) {
        Some(u) => Some(u),
        None => as_text(get(get(j, "coverImage"), "large")),
    };
    let episode_count = match as_u64(get(j, "episodes")) {
        Some(n) => Some(n as u32),
        None => None,
    };
    let genres = match as_array(get(j, "genres")) {
        Some(a) => strings_in(a),
        None => Vec::new(),
    };
    let rating = as_fixed(get(j, "averageScore"), 2);
    let id_text = int_to_text(id);
    let a = Anime {
        id: string_from_chars(&id_text),
        title,
        synopsis,
        poster_url,
        episode_count,
        genres,
        rating,
    };
    assert(string_views(a.genres@) =~= (match array_of(at(Some(*m), "genres"@)) {
        Some(arr) => crate::api::string_elems(arr),
        None => Seq::<Seq<char>>::empty(),
    }));
    Some(a)
}

/// Reads the anime of an AniList search response.
pub fn parse_search(resp: &Json) -> (r: Vec<Anime>)
    ensures
        anime_views(r@) == search_results(*resp),
{
    let items = match as_array(get(get(get(Some(resp), "data"), "Page"), "media")) {
        Some(items) => items,
        None => {
            return Vec::new();
        },
    };
    let mut r: Vec<Anime> = Vec::new();
    let n = items.len();
    let ghost f = |m: Json| media(m);
    for i in 0..n
        invariant
            n == items.len(),
            f == (|m: Json| media(m)),
            anime_views(r@) == somes(items@.map_values(f).take(i as int)),
    {
        let ghost before = r@;
        proof {
            crate::api::lemma_somes_step(items@.map_values(f), i as int);
        }
        match parse_media(&items[i]) {
            Some(a) => {
                r.push(a);
                assert(anime_views(r@) =~= anime_views(before) + seq![a@]);
            },
            None => {
                assert(anime_views(r@) =~= anime_views(before) + Seq::<AnimeView>::empty());
            },
        }
    }
    assert(items@.map_values(f).take(n as int) =~= items@.map_values(f));
    r
}


/// Reads the `Media` object of an AniList detail response.
pub fn parse_detail(resp: &Json) -> (r: Option<Anime>)
    ensures
        match r {
            Some(a) => at(at(Some(*resp), "data"@), "Media"@) matches Some(m) && media(m) == Some(a@),
            None => at(at(Some(*resp), "data"@), "Media"@) matches Some(m) ==> media(m) is None,
        },
{
    match get(get(Some(resp), "data"), "Media") {
        Some(m) => parse_media(m),
        None => None,
    }
}

} // verus!
