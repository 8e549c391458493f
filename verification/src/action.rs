//! Everything that can happen in the TUI: input, results of background work,
//! and follow-up work that the state machine asks for.

use vstd::prelude::*;

use crate::model::anime::{Anime, Episode};
use crate::model::stream::StreamUrl;

verus! {

/// A key, as far as the TUI tells keys apart.
#[derive(Debug, Clone, Copy, PartialEq, Eq, Structural)]
pub enum KeyCode {
    Char(char),
    Enter,
    Esc,
    Tab,
    Backspace,
    Left,
    Right,
    Up,
    Down,
    Other,
}

/// A key press and whether Ctrl was held.
#[derive(Debug, Clone, Copy, PartialEq, Eq, Structural)]
pub struct KeyPress {
    pub code: KeyCode,
    pub ctrl: bool,
}

/// Episode numbers are in thousandths; a poster is given by its pixel size.
pub enum Action {
    Tick,
    Render,
    Quit,
    Key(KeyPress),
    Resize(u16, u16),
    // Search flow
    Search(String),
    SearchResults(Vec<Anime>),
    SearchError(String),
    SearchLoading,
    // Detail flow
    SelectAnime(usize),
    AnimeDetail(Box<Anime>),
    EpisodesLoaded(Vec<Episode>),
    SetMalId(i64),
    EpisodeDetailsLoaded(Vec<Episode>),
    FetchEpisodeSynopsis(i64, i32),
    EpisodeSynopsisLoaded(i64, String),
    // Playback flow
    SelectEpisode(usize),
    PlayLoading(String),
    StreamsResolved(Vec<StreamUrl>),
    StreamsPrefetched(String, Vec<StreamUrl>),
    PrefetchStreams(String, String, String),
    PrefetchAllStreams(String, Vec<String>, String),
    Play,
    PlayError(String),
    // Posters
    LoadPoster(String, String),
    PosterLoaded(String, u32, u32),
    // Settings
    SaveConfig,
    // Navigation
    Back,
    ScrollUp,
    ScrollDown,
    // Setup wizard
    SetupNext,
    SetupPrev,
    SetupSelect(usize),
    Error(String),
}

/// The work that handling an action can ask for next, with its text as
/// character sequences.
pub enum FollowUp {
    Search(Seq<char>),
    SelectAnime(usize),
    SelectEpisode(usize),
    LoadPoster(Seq<char>, Seq<char>),
    FetchEpisodeSynopsis(i64, i32),
    PrefetchStreams(Seq<char>, Seq<char>, Seq<char>),
    PrefetchAllStreams(Seq<char>, Seq<Seq<char>>, Seq<char>),
    SaveConfig,
    Other,
}

/// The view of a text list.
pub open spec fn texts(v: Seq<String>) -> Seq<Seq<char>> {
    v.map_values(|s: String| s@)
}

/// What a follow-up action asks for.
pub open spec fn follow_up(a: Action) -> FollowUp {
    match a {
        Action::Search(q) => FollowUp::Search(q@),
        Action::SelectAnime(i) => FollowUp::SelectAnime(i),
        Action::SelectEpisode(i) => FollowUp::SelectEpisode(i),
        Action::LoadPoster(id, url) => FollowUp::LoadPoster(id@, url@),
        Action::FetchEpisodeSynopsis(m, e) => FollowUp::FetchEpisodeSynopsis(m, e),
        Action::PrefetchStreams(id, ep, mode) => FollowUp::PrefetchStreams(id@, ep@, mode@),
        Action::PrefetchAllStreams(id, eps, mode) => FollowUp::PrefetchAllStreams(
            id@,
            texts(eps@),
            mode@,
        ),
        Action::SaveConfig => FollowUp::SaveConfig,
        _ => FollowUp::Other,
    }
}

/// `follow_up` of an optional action.
pub open spec fn follow_up_opt(a: Option<Action>) -> Option<FollowUp> {
    match a {
        Some(x) => Some(follow_up(x)),
        None => None,
    }
}

} // verus!
