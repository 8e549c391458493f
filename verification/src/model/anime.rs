//! Series and episode records shared by every metadata source.

use vstd::prelude::*;

verus! {

/// One anime series. `rating` is the score out of 10 in thousandths of a
/// point (8.75 is `8750`).
pub struct Anime {
    pub id: String,
    pub title: String,
    pub synopsis: Option<String>,
    pub poster_url: Option<String>,
    pub episode_count: Option<u32>,
    pub genres: Vec<String>,
    pub rating: Option<i64>,
}

/// One episode. `number` is the episode number in thousandths (episode 12 is
/// `12000`, episode 12.5 is `12500`).
pub struct Episode {
    pub number: i64,
    pub title: Option<String>,
    pub synopsis: Option<String>,
    pub is_filler: bool,
    pub aired: Option<String>,
}

/// An anime with its text as character sequences.
pub struct AnimeView {
    pub id: Seq<char>,
    pub title: Seq<char>,
    pub synopsis: Option<Seq<char>>,
    pub poster_url: Option<Seq<char>>,
    pub episode_count: Option<u32>,
    pub genres: Seq<Seq<char>>,
    pub rating: Option<i64>,
}

/// An episode with its text as character sequences.
pub struct EpisodeView {
    pub number: i64,
    pub title: Option<Seq<char>>,
    pub synopsis: Option<Seq<char>>,
    pub is_filler: bool,
    pub aired: Option<Seq<char>>,
}

/// The view of an optional string.
pub open spec fn opt_view(s: Option<String>) -> Option<Seq<char>> {
    match s {
        Some(x) => Some(x@),
        None => None,
    }
}

/// The views of a list of strings.
pub open spec fn string_views(v: Seq<String>) -> Seq<Seq<char>> {
    v.map_values(|s: String| s@)
}

impl View for Anime {
    type V = AnimeView;

    open spec fn view(&self) -> AnimeView {
        AnimeView {
            id: self.id@,
            title: self.title@,
            synopsis: opt_view(self.synopsis),
            poster_url: opt_view(self.poster_url),
            episode_count: self.episode_count,
            genres: string_views(self.genres@),
            rating: self.rating,
        }
    }
}

impl View for Episode {
    type V = EpisodeView;

    open spec fn view(&self) -> EpisodeView {
        EpisodeView {
            number: self.number,
            title: opt_view(self.title),
            synopsis: opt_view(self.synopsis),
            is_filler: self.is_filler,
            aired: opt_view(self.aired),
        }
    }
}

/// The views of a list of anime.
pub open spec fn anime_views(v: Seq<Anime>) -> Seq<AnimeView> {
    v.map_values(|a: Anime| a@)
}

/// The views of a list of episodes.
pub open spec fn episode_views(v: Seq<Episode>) -> Seq<EpisodeView> {
    v.map_values(|e: Episode| e@)
}

/// A copy of an optional string.
pub fn clone_opt_string(s: &Option<String>) -> (r: Option<String>)
    ensures
        r == *s,
{
    match s {
        Some(x) => Some(x.clone()),
        None => None,
    }
}

/// A copy of a vector of strings.
pub fn clone_strings(v: &Vec<String>) -> (r: Vec<String>)
    ensures
        r@ == v@,
{
    let mut r: Vec<String> = Vec::new();
    for i in 0..v.len()
        invariant
            r@ == v@.take(i as int),
    {
        r.push(v[i].clone());
        assert(v@.take(i + 1) == v@.take(i as int).push(v@[i as int]));
    }
    assert(v@.take(v.len() as int) == v@);
    r
}

impl Clone for Anime {
    fn clone(&self) -> (r: Self)
        ensures
            r.id == self.id,
            r.title == self.title,
            r.synopsis == self.synopsis,
            r.poster_url == self.poster_url,
            r.episode_count == self.episode_count,
            r.genres@ == self.genres@,
            r.rating == self.rating,
    {
        Anime {
            id: self.id.clone(),
            title: self.title.clone(),
            synopsis: clone_opt_string(&self.synopsis),
            poster_url: clone_opt_string(&self.poster_url),
            episode_count: self.episode_count,
            genres: clone_strings(&self.genres),
            rating: self.rating,
        }
    }
}

impl Clone for Episode {
    fn clone(&self) -> (r: Self)
        ensures
            r == *self,
    {
        Episode {
            number: self.number,
            title: clone_opt_string(&self.title),
            synopsis: clone_opt_string(&self.synopsis),
            is_filler: self.is_filler,
            aired: clone_opt_string(&self.aired),
        }
    }
}

} // verus!
