//! App state, mode transitions and action dispatch.

use vstd::prelude::*;

use crate::action::{follow_up_opt, texts, Action, KeyCode, KeyPress};
use crate::app_model::{
    insert_entry, key_pos, lookup, merge_details, min_quality_at, min_quality_index, mode_text,
    player_index, provider_at, provider_index, remove_entry, same_episode, step_down, step_up,
    find_detail, episode_pos, unique_keys, initial, lemma_synopsis_once, settings_key_keeps_cursor_in_range, applying_current_option_keeps_config, AppView, step_preserves_wf, episode_texts, lemma_key_pos, lemma_insert_entry_unique, InputMode, ModalKind, Screen,
    SETTINGS_ROW_COUNT, SETUP_STEP_COUNT,
};
use crate::config::{AudioMode, Config, MetadataProvider, MinQuality, PlayerName};
use crate::model::anime::{Anime, Episode};
use crate::model::stream::StreamUrl;
use crate::number::{clamp_i32, episode_number_text, format_episode_number};
use crate::text::string_from_chars;
use std::collections::HashSet;

verus! {

broadcast use vstd::std_specs::hash::group_hash_axioms;

/// The TUI state. Posters themselves live with the renderer; the state
/// keeps their pixel sizes under the anime id.
pub struct App {
    pub should_quit: bool,
    pub screen: Screen,
    pub input_mode: InputMode,
    pub config: Config,
    // Search state
    pub search_input: Vec<char>,
    pub cursor_position: usize,
    pub search_results: Vec<Anime>,
    pub selected_result: usize,
    pub search_loading: bool,
    pub search_error: Option<String>,
    // Detail state
    pub selected_anime: Option<Anime>,
    pub episodes: Vec<Episode>,
    pub selected_episode: usize,
    pub detail_scroll: u16,
    pub mal_id: Option<i64>,
    pub synopsis_requested: HashSet<i32>,
    // Playing state
    pub streams: Vec<StreamUrl>,
    pub now_playing_title: Option<String>,
    pub now_playing_episode: Option<String>,
    pub play_error: Option<String>,
    // Stream prefetch cache: episode text -> resolved streams
    pub stream_cache: Vec<(String, Vec<StreamUrl>)>,
    // Setup wizard state
    pub setup_step: usize,
    pub setup_selected: usize,
    // Modal state
    pub active_modal: Option<ModalKind>,
    pub settings_cursor: usize,
    pub settings_editing: bool,
    pub settings_option_cursor: usize,
    // Poster state: whether the terminal can show images, and the sizes of loaded posters
    pub graphics: bool,
    pub poster_cache: Vec<(String, (u32, u32))>,
    pub poster_loading: Option<String>,
    // Animation
    pub tick_count: usize,
    // General errors
    pub error_message: Option<String>,
    // Players found on this system
    pub installed_players: Vec<PlayerName>,
    // Whether the key help is shown
    pub show_help: bool,
}

/// The view of an optional string.
pub open spec fn opt_text(s: Option<String>) -> Option<Seq<char>> {
    match s {
        Some(x) => Some(x@),
        None => None,
    }
}

impl View for App {
    type V = AppView;

    open spec fn view(&self) -> AppView {
        AppView {
            should_quit: self.should_quit,
            screen: self.screen,
            input_mode: self.input_mode,
            config: self.config,
            search_input: self.search_input@,
            cursor_position: self.cursor_position,
            search_results: self.search_results@,
            selected_result: self.selected_result,
            search_loading: self.search_loading,
            search_error: self.search_error,
            selected_anime: self.selected_anime,
            episodes: self.episodes@,
            selected_episode: self.selected_episode,
            detail_scroll: self.detail_scroll,
            mal_id: self.mal_id,
            synopsis_requested: self.synopsis_requested@,
            streams: self.streams@,
            now_playing_title: self.now_playing_title,
            now_playing_episode: opt_text(self.now_playing_episode),
            play_error: self.play_error,
            stream_cache: self.stream_cache@,
            setup_step: self.setup_step,
            setup_selected: self.setup_selected,
            active_modal: self.active_modal,
            settings_cursor: self.settings_cursor,
            settings_editing: self.settings_editing,
            settings_option_cursor: self.settings_option_cursor,
            graphics: self.graphics,
            poster_cache: self.poster_cache@,
            poster_loading: self.poster_loading,
            tick_count: self.tick_count,
            error_message: self.error_message,
            installed_players: self.installed_players@,
            show_help: self.show_help,
        }
    }
}

/// Position of the entry for `k` in an association list.
fn find_key<V>(c: &Vec<(String, V)>, k: &String) -> (r: Option<usize>)
    ensures
        match r {
            Some(i) => key_pos(c@, k@) == Some(i as int),
            None => key_pos(c@, k@) is None,
        },
{
    proof {
        lemma_key_pos(c@, k@);
    }
    let n = c.len();
    for i in 0..n
        invariant
            n == c.len(),
            forall|j: int| 0 <= j < i ==> c@[j].0@ != k@,
            match key_pos(c@, k@) {
                Some(p) => 0 <= p < c.len() && c@[p].0@ == k@ && forall|j: int|
                    0 <= j < p ==> c@[j].0@ != k@,
                None => forall|j: int| 0 <= j < c.len() ==> c@[j].0@ != k@,
            },
    {
        if c[i].0 == *k {
            return Some(i);
        }
    }
    None
}

proof fn lemma_episode_pos(eps: Seq<Episode>, n: i64)
    ensures
        match episode_pos(eps, n) {
            Some(i) => 0 <= i < eps.len() && same_episode(eps[i].number, n) && forall|j: int|
                0 <= j < i ==> !same_episode(eps[j].number, n),
            None => forall|j: int| 0 <= j < eps.len() ==> !same_episode(eps[j].number, n),
        },
    decreases eps.len(),
{
    if eps.len() > 0 && !same_episode(eps[0].number, n) {
        lemma_episode_pos(eps.skip(1), n);
        assert forall|j: int| 1 <= j < eps.len() implies eps[j] == eps.skip(1)[j - 1] by {}
    }
}

proof fn lemma_find_detail(details: Seq<Episode>, n: i64)
    ensures
        match find_detail(details, n) {
            Some(d) => exists|i: int|
                0 <= i < details.len() && details[i] == d && same_episode(d.number, n) && forall|
                    j: int,
                | 0 <= j < i ==> !same_episode(#[trigger] details[j].number, n),
            None => forall|j: int| 0 <= j < details.len() ==> !same_episode(#[trigger] details[j].number, n),
        },
    decreases details.len(),
{
    if details.len() > 0 && !same_episode(details[0].number, n) {
        lemma_find_detail(details.skip(1), n);
        assert forall|j: int| 1 <= j < details.len() implies details[j] == details.skip(1)[j - 1] by {}
        match find_detail(details, n) {
            Some(d) => {
                let i = choose|i: int|
                    0 <= i < details.skip(1).len() && details.skip(1)[i] == d && same_episode(d.number, n)
                        && forall|j: int| 0 <= j < i ==> !same_episode(#[trigger] details.skip(1)[j].number, n);
                assert(details[i + 1] == d);
                assert forall|j: int| 0 <= j < i + 1 implies !same_episode(#[trigger] details[j].number, n) by {
                    if j > 0 {
                        assert(details[j] == details.skip(1)[j - 1]);
                    }
                }
            },
            None => {},
        }
    }
}

/// Whether two episode numbers (in thousandths) name the same episode.
fn same_episode_exec(a: i64, b: i64) -> (r: bool)
    ensures
        r == same_episode(a, b),
{
    let d = a as i128 - b as i128;
    -10 < d && d < 10
}

/// Whether `k` occurs in `v`.
/// Position of the first detail record for the episode numbered `n`.
fn find_episode_detail(details: &Vec<Episode>, n: i64) -> (r: Option<usize>)
    ensures
        match r {
            Some(k) => k < details.len() && find_detail(details@, n) == Some(details@[k as int]),
            None => find_detail(details@, n) is None,
        },
{
    proof {
        lemma_find_detail_first(details@, n);
    }
    let m = details.len();
    for k in 0..m
        invariant
            m == details.len(),
            forall|j: int| 0 <= j < k ==> !same_episode(#[trigger] details@[j].number, n),
            find_detail(details@, n) == find_first_from(details@, n, 0),
    {
        if same_episode_exec(details[k].number, n) {
            proof {
                lemma_find_first_from(details@, n, 0, k as int);
            }
            return Some(k);
        }
    }
    proof {
        lemma_find_first_from(details@, n, 0, m as int);
    }
    None
}

/// The first record at or after `start` for the episode numbered `n`.
spec fn find_first_from(details: Seq<Episode>, n: i64, start: int) -> Option<Episode>
    decreases details.len() - start,
{
    if start < 0 || start >= details.len() {
        None
    } else if same_episode(details[start].number, n) {
        Some(details[start])
    } else {
        find_first_from(details, n, start + 1)
    }
}

proof fn lemma_find_first_from(details: Seq<Episode>, n: i64, start: int, k: int)
    requires
        0 <= start <= k <= details.len(),
        forall|j: int| start <= j < k ==> !same_episode(#[trigger] details[j].number, n),
    ensures
        k < details.len() && same_episode(details[k].number, n) ==> find_first_from(details, n, start)
            == Some(details[k]),
        k == details.len() ==> find_first_from(details, n, start) is None,
    decreases k - start,
{
    if start < k {
        lemma_find_first_from(details, n, start + 1, k);
    }
}

proof fn lemma_find_detail_first(details: Seq<Episode>, n: i64)
    ensures
        find_detail(details, n) == find_first_from(details, n, 0),
    decreases details.len(),
{
    if details.len() > 0 {
        lemma_find_detail_first(details.skip(1), n);
        lemma_find_first_shift(details, n, 1);
    }
}

proof fn lemma_find_first_shift(details: Seq<Episode>, n: i64, start: int)
    requires
        1 <= start <= details.len(),
    ensures
        find_first_from(details, n, start) == find_first_from(details.skip(1), n, start - 1),
    decreases details.len() - start,
{
    if start < details.len() {
        assert(details.skip(1)[start - 1] == details[start]);
        lemma_find_first_shift(details, n, start + 1);
    }
}

/// Settings-row index of a provider.
pub fn provider_to_index(p: MetadataProvider) -> (r: usize)
    ensures
        r == provider_index(p),
{
    match p {
        MetadataProvider::Jikan => 0,
        MetadataProvider::Anilist => 1,
        MetadataProvider::Anidb => 2,
        MetadataProvider::Kitsu => 3,
        MetadataProvider::Notify => 4,
    }
}

/// Provider chosen by a settings-row index.
pub fn index_to_provider(i: usize) -> (r: MetadataProvider)
    ensures
        r == provider_at(i),
{
    match i {
        0 => MetadataProvider::Jikan,
        1 => MetadataProvider::Anilist,
        _ => MetadataProvider::Anidb,
    }
}

/// Settings-row index of a minimum quality.
pub fn min_quality_to_index(q: MinQuality) -> (r: usize)
    ensures
        r == min_quality_index(q),
{
    match q {
        MinQuality::Any => 0,
        MinQuality::P360 => 1,
        MinQuality::P480 => 2,
        MinQuality::P720 => 3,
        MinQuality::P1080 => 4,
    }
}

/// Minimum quality chosen by a settings-row index.
pub fn index_to_min_quality(i: usize) -> (r: MinQuality)
    ensures
        r == min_quality_at(i),
{
    match i {
        0 => MinQuality::Any,
        1 => MinQuality::P360,
        2 => MinQuality::P480,
        3 => MinQuality::P720,
        _ => MinQuality::P1080,
    }
}

/// Choosing the option shown for a minimum quality gives that quality back.
pub proof fn min_quality_index_round_trip(q: MinQuality, i: usize)
    ensures
        min_quality_at(min_quality_index(q)) == q,
        i < 5 ==> min_quality_index(min_quality_at(i)) == i,
{
}

/// Choosing the option shown for Jikan, AniList or AniDB gives that provider back.
pub proof fn provider_index_round_trip(p: MetadataProvider, i: usize)
    ensures
        provider_index(p) < 3 ==> provider_at(provider_index(p)) == p,
        i < 3 ==> provider_index(provider_at(i)) == i,
{
}

/// `min(x + 1, len - 1)`.
fn step_down_exec(x: usize, len: usize) -> (r: usize)
    requires
        len > 0,
    ensures
        r == step_down(x, len),
{
    if x < len - 1 {
        x + 1
    } else {
        len - 1
    }
}

/// `x - 1`, stopping at 0.
fn step_up_exec(x: usize) -> (r: usize)
    ensures
        r == step_up(x),
{
    if x > 0 {
        x - 1
    } else {
        0
    }
}

impl App {
    /// A fresh state. `needs_setup` says that no config file exists yet,
    /// `graphics` that the terminal can show images, and `installed_players`
    /// lists the players found on this system.
    pub fn new(
        config: Config,
        needs_setup: bool,
        graphics: bool,
        installed_players: Vec<PlayerName>,
    ) -> (r: App)
        requires
            installed_players.len() < usize::MAX,
        ensures
            r@ == initial(config, needs_setup, graphics, installed_players@),
            r@.wf(),
    {
        App {
            should_quit: false,
            screen: if needs_setup { Screen::Setup } else { Screen::Search },
            input_mode: if needs_setup { InputMode::Normal } else { InputMode::Editing },
            config,
            search_input: Vec::new(),
            cursor_position: 0,
            search_results: Vec::new(),
            selected_result: 0,
            search_loading: false,
            search_error: None,
            selected_anime: None,
            episodes: Vec::new(),
            selected_episode: 0,
            detail_scroll: 0,
            mal_id: None,
            synopsis_requested: HashSet::new(),
            streams: Vec::new(),
            now_playing_title: None,
            now_playing_episode: None,
            play_error: None,
            stream_cache: Vec::new(),
            setup_step: 0,
            setup_selected: 0,
            active_modal: None,
            settings_cursor: 0,
            settings_editing: false,
            settings_option_cursor: 0,
            graphics,
            poster_cache: Vec::new(),
            poster_loading: None,
            tick_count: 0,
            error_message: None,
            installed_players,
            show_help: false,
        }
    }

    /// Records the players detected on this system now: the setup wizard and
    /// the settings offer the players detected when a key is handled.
    pub fn set_installed_players(&mut self, players: Vec<PlayerName>)
        requires
            old(self)@.wf(),
            players.len() < usize::MAX,
        ensures
            final(self)@ == (AppView { installed_players: players@, ..old(self)@ }),
            final(self)@.wf(),
    {
        self.installed_players = players;
    }

    /// "sub" or "dub", as AllAnime names the audio modes.
    pub fn mode_str(&self) -> (r: &'static str)
        ensures
            r@ == mode_text(self.config),
    {
        match self.config.general.default_mode {
            AudioMode::Sub => "sub",
            AudioMode::Dub => "dub",
        }
    }

    /// Whether streams for the episode text `ep_str` are cached.
    pub fn has_cached_streams(&self, ep_str: &String) -> (r: bool)
        ensures
            r == (key_pos(self.stream_cache@, ep_str@) is Some),
    {
        find_key(&self.stream_cache, ep_str).is_some()
    }

    /// Whether the poster of `anime_id` is loaded.
    pub fn has_poster(&self, anime_id: &String) -> (r: bool)
        ensures
            r == (key_pos(self.poster_cache@, anime_id@) is Some),
    {
        find_key(&self.poster_cache, anime_id).is_some()
    }

    /// Takes the cached streams of an episode out of the cache.
    pub fn take_cached_streams(&mut self, ep_str: &String) -> (r: Option<Vec<StreamUrl>>)
        requires
            old(self)@.wf(),
        ensures
            final(self)@ == (AppView {
                stream_cache: remove_entry(old(self)@.stream_cache, ep_str@),
                ..old(self)@
            }),
            r == lookup(old(self)@.stream_cache, ep_str@),
            final(self)@.wf(),
            (lookup(final(self)@.stream_cache, ep_str@) is None),
    {
        match find_key(&self.stream_cache, ep_str) {
            Some(i) => {
                let ghost c = self.stream_cache@;
                proof {
                    lemma_key_pos(c, ep_str@);
                }
                let (_, streams) = self.stream_cache.remove(i);
                proof {
                    lemma_key_pos(c, ep_str@);
                    let c2 = c.remove(i as int);
                    assert(unique_keys(c2)) by {
                        assert forall|a: int, b: int| 0 <= a < c2.len() && 0 <= b < c2.len() && a != b implies c2[a].0@ != c2[b].0@ by {
                            let a1 = if a < i { a } else { a + 1 };
                            let b1 = if b < i { b } else { b + 1 };
                            assert(c2[a] == c[a1]);
                            assert(c2[b] == c[b1]);
                        }
                    }
                    lemma_key_pos(c2, ep_str@);
                    if key_pos(c2, ep_str@) is Some {
                        let p = key_pos(c2, ep_str@)->0;
                        let p1 = if p < i { p } else { p + 1 };
                        assert(c2[p] == c[p1]);
                    }
                }
                Some(streams)
            },
            None => {
                proof {
                    lemma_key_pos(self.stream_cache@, ep_str@);
                }
                None
            },
        }
    }

    /// Asks for the poster of the highlighted result unless it is cached or loading.
    fn load_selected_poster(&mut self) -> (r: Option<Action>)
        ensures
            (final(self)@, follow_up_opt(r)) == old(self)@.load_selected_poster(),
    {
        if self.selected_result >= self.search_results.len() {
            return None;
        }
        let anime = &self.search_results[self.selected_result];
        let url = match &anime.poster_url {
            Some(u) => u,
            None => {
                return None;
            },
        };
        if find_key(&self.poster_cache, &anime.id).is_some() {
            return None;
        }
        if let Some(p) = &self.poster_loading {
            if *p == anime.id {
                return None;
            }
        }
        let id = anime.id.clone();
        let action = Action::LoadPoster(anime.id.clone(), url.clone());
        self.poster_loading = Some(id);
        Some(action)
    }

    /// Asks Jikan for the synopsis of the highlighted episode, once per episode.
    fn maybe_load_episode_synopsis(&mut self) -> (r: Option<Action>)
        ensures
            (final(self)@, follow_up_opt(r)) == old(self)@.maybe_load_episode_synopsis(),
            r matches Some(Action::FetchEpisodeSynopsis(m, k)) ==> !old(self)@.synopsis_requested.contains(k)
                && final(self)@.synopsis_requested.contains(k),
            r is Some ==> final(self)@.maybe_load_episode_synopsis().1 is None,
    {
        proof {
            lemma_synopsis_once(self@);
        }
        let mal_id = match self.mal_id {
            Some(m) => m,
            None => {
                return None;
            },
        };
        if self.selected_episode >= self.episodes.len() {
            return None;
        }
        let ep = &self.episodes[self.selected_episode];
        if ep.synopsis.is_some() || ep.number % 1000 != 0 {
            return None;
        }
        let q = ep.number / 1000;
        let k: i32 = if q > i32::MAX as i64 {
            i32::MAX
        } else if q < i32::MIN as i64 {
            i32::MIN
        } else {
            q as i32
        };
        assert(ep.number % 1000 == 0);
        assert(q == ep.number / 1000);
        assert(k == clamp_i32(ep.number / 1000) as i32);
        if self.synopsis_requested.contains(&k) {
            return None;
        }
        self.synopsis_requested.insert(k);
        Some(Action::FetchEpisodeSynopsis(mal_id, k))
    }

    /// Asks for the streams of the highlighted episode unless they are cached.
    fn maybe_prefetch_streams(&self) -> (r: Option<Action>)
        ensures
            follow_up_opt(r) == self@.maybe_prefetch_streams(),
    {
        let anime = match &self.selected_anime {
            Some(a) => a,
            None => {
                return None;
            },
        };
        if self.selected_episode >= self.episodes.len() {
            return None;
        }
        let ep_str = format_episode_number(self.episodes[self.selected_episode].number);
        if find_key(&self.stream_cache, &ep_str).is_some() {
            return None;
        }
        Some(
            Action::PrefetchStreams(
                anime.id.clone(),
                ep_str,
                String::from_str(self.mode_str()),
            ),
        )
    }

    fn after_episode_move(&mut self) -> (r: Option<Action>)
        ensures
            (final(self)@, follow_up_opt(r)) == old(self)@.after_episode_move(),
    {
        let r = self.maybe_load_episode_synopsis();
        if r.is_some() {
            r
        } else {
            self.maybe_prefetch_streams()
        }
    }

    /// Leaves a modal, or the detail screen.
    fn go_back(&mut self)
        ensures
            final(self)@ == old(self)@.go_back(),
    {
        if self.active_modal.is_some() {
            self.active_modal = None;
            self.play_error = None;
            return;
        }
        match self.screen {
            Screen::Detail => {
                self.screen = Screen::Search;
                self.selected_anime = None;
                self.episodes.clear();
                self.mal_id = None;
                self.synopsis_requested.clear();
            },
            Screen::Search => {},
            Screen::Setup => {},
        }
    }

    fn focus_search(&mut self)
        ensures
            final(self)@ == old(self)@.focus_search(),
    {
        self.active_modal = Some(ModalKind::Search);
        self.input_mode = InputMode::Editing;
    }

    fn open_settings_modal(&mut self)
        ensures
            final(self)@ == old(self)@.open_settings(),
    {
        self.active_modal = Some(ModalKind::Settings);
        self.settings_cursor = 0;
        self.settings_editing = false;
        self.settings_option_cursor = 0;
    }

    fn type_char(&mut self, c: char)
        requires
            old(self).cursor_position <= old(self).search_input.len(),
        ensures
            final(self)@ == old(self)@.type_char(c),
            final(self).cursor_position == old(self).cursor_position + 1,
    {
        self.search_input.insert(self.cursor_position, c);
        assert(self.cursor_position < self.search_input.len());
        self.cursor_position = self.cursor_position + 1;
    }

    fn backspace(&mut self)
        requires
            old(self).cursor_position <= old(self).search_input.len(),
        ensures
            final(self)@ == old(self)@.backspace(),
    {
        if self.cursor_position > 0 {
            self.cursor_position = self.cursor_position - 1;
            self.search_input.remove(self.cursor_position);
        }
    }

    fn cursor_right(&mut self)
        ensures
            final(self)@ == old(self)@.cursor_right(),
    {
        if self.cursor_position < self.search_input.len() {
            self.cursor_position = self.cursor_position + 1;
        }
    }

    fn handle_search_normal(&mut self, code: KeyCode) -> (r: Option<Action>)
        ensures
            (final(self)@, follow_up_opt(r)) == old(self)@.search_normal_key(code),
    {
        match code {
            KeyCode::Char('q') | KeyCode::Esc => {
                self.should_quit = true;
                None
            },
            KeyCode::Char('s') | KeyCode::Char('i') | KeyCode::Char('/') => {
                self.focus_search();
                None
            },
            KeyCode::Tab => {
                self.open_settings_modal();
                None
            },
            KeyCode::Char('?') => {
                self.show_help = true;
                None
            },
            KeyCode::Char('j') | KeyCode::Down => {
                if self.search_results.len() > 0 {
                    self.selected_result = step_down_exec(self.selected_result, self.search_results.len());
                }
                self.load_selected_poster()
            },
            KeyCode::Char('k') | KeyCode::Up => {
                self.selected_result = step_up_exec(self.selected_result);
                self.load_selected_poster()
            },
            KeyCode::Enter | KeyCode::Char('l') | KeyCode::Right => {
                if self.search_results.len() > 0 {
                    Some(Action::SelectAnime(self.selected_result))
                } else {
                    None
                }
            },
            _ => None,
        }
    }

    fn handle_editing_key(&mut self, code: KeyCode) -> (r: Option<Action>)
        requires
            old(self).cursor_position <= old(self).search_input.len(),
        ensures
            (final(self)@, follow_up_opt(r)) == old(self)@.editing_key(code),
            (match code {
                KeyCode::Char(c) => r is None && final(self)@.search_input
                    == old(self)@.search_input.insert(old(self).cursor_position as int, c)
                    && final(self).cursor_position == old(self).cursor_position + 1,
                _ => true,
            }),
            code == KeyCode::Backspace ==> r is None && (if old(self).cursor_position > 0 {
                final(self)@.search_input == old(self)@.search_input.remove(
                    old(self).cursor_position - 1,
                ) && final(self).cursor_position == old(self).cursor_position - 1
            } else {
                final(self)@ == old(self)@
            }),
    {
        match code {
            KeyCode::Esc => {
                if self.search_results.len() == 0 {
                    self.should_quit = true;
                } else {
                    self.input_mode = InputMode::Normal;
                }
                None
            },
            KeyCode::Tab => {
                self.open_settings_modal();
                None
            },
            KeyCode::Char(c) => {
                self.type_char(c);
                None
            },
            KeyCode::Backspace => {
                self.backspace();
                None
            },
            KeyCode::Left => {
                self.cursor_position = step_up_exec(self.cursor_position);
                None
            },
            KeyCode::Right => {
                self.cursor_right();
                None
            },
            KeyCode::Enter => {
                if self.search_input.len() > 0 {
                    self.input_mode = InputMode::Normal;
                    Some(Action::Search(string_from_chars(&self.search_input)))
                } else {
                    None
                }
            },
            _ => None,
        }
    }

    fn handle_detail_normal(&mut self, code: KeyCode) -> (r: Option<Action>)
        ensures
            (final(self)@, follow_up_opt(r)) == old(self)@.detail_normal_key(code),
    {
        match code {
            KeyCode::Char('q') => {
                self.should_quit = true;
                None
            },
            KeyCode::Char('/') => {
                self.go_back();
                self.focus_search();
                None
            },
            KeyCode::Tab => {
                self.open_settings_modal();
                None
            },
            KeyCode::Char('?') => {
                self.show_help = true;
                None
            },
            KeyCode::Esc | KeyCode::Char('h') | KeyCode::Left => {
                self.go_back();
                None
            },
            KeyCode::Char('j') | KeyCode::Down => {
                if self.episodes.len() > 0 {
                    self.selected_episode = step_down_exec(self.selected_episode, self.episodes.len());
                }
                self.after_episode_move()
            },
            KeyCode::Char('k') | KeyCode::Up => {
                self.selected_episode = step_up_exec(self.selected_episode);
                self.after_episode_move()
            },
            KeyCode::Enter | KeyCode::Char('l') | KeyCode::Right => {
                if self.episodes.len() > 0 {
                    Some(Action::SelectEpisode(self.selected_episode))
                } else {
                    None
                }
            },
            _ => None,
        }
    }

    fn handle_search_modal_key(&mut self, code: KeyCode) -> (r: Option<Action>)
        requires
            old(self).cursor_position <= old(self).search_input.len(),
        ensures
            (final(self)@, follow_up_opt(r)) == old(self)@.search_modal_key(code),
    {
        match code {
            KeyCode::Esc => {
                if self.search_results.len() == 0 {
                    self.should_quit = true;
                } else {
                    self.active_modal = None;
                    self.input_mode = InputMode::Normal;
                }
                None
            },
            KeyCode::Char(c) => {
                self.type_char(c);
                None
            },
            KeyCode::Backspace => {
                self.backspace();
                None
            },
            KeyCode::Left => {
                self.cursor_position = step_up_exec(self.cursor_position);
                None
            },
            KeyCode::Right => {
                self.cursor_right();
                None
            },
            KeyCode::Enter => {
                if self.search_input.len() > 0 {
                    Some(Action::Search(string_from_chars(&self.search_input)))
                } else {
                    None
                }
            },
            _ => None,
        }
    }

    fn handle_player_modal_key(&mut self, code: KeyCode) -> (r: Option<Action>)
        ensures
            (final(self)@, follow_up_opt(r)) == old(self)@.player_modal_key(code),
    {
        match code {
            KeyCode::Char('q') => {
                self.should_quit = true;
                None
            },
            KeyCode::Esc => {
                self.active_modal = None;
                self.play_error = None;
                None
            },
            KeyCode::Char('n') => {
                if self.episodes.len() > 0 && self.selected_episode < self.episodes.len() - 1 {
                    self.selected_episode = self.selected_episode + 1;
                    Some(Action::SelectEpisode(self.selected_episode))
                } else {
                    None
                }
            },
            KeyCode::Char('p') => {
                if self.selected_episode > 0 {
                    self.selected_episode = self.selected_episode - 1;
                    Some(Action::SelectEpisode(self.selected_episode))
                } else {
                    None
                }
            },
            _ => None,
        }
    }

    /// How many options a settings row has.
    fn settings_option_count(&self, row: usize) -> (r: usize)
        requires
            self.installed_players.len() < usize::MAX,
        ensures
            r == self@.option_count(row),
    {
        if row <= 2 {
            3
        } else if row == 3 {
            self.installed_players.len() + 1
        } else if row == 4 {
            2
        } else if row == 5 {
            5
        } else {
            1
        }
    }

    /// Position of the configured player among the detected ones.
    fn player_position(&self) -> (r: usize)
        ensures
            r == player_index(self.installed_players@, self.config.player.name),
    {
        let n = self.installed_players.len();
        let ghost ps = self.installed_players@;
        let ghost p = self.config.player.name;
        let mut i: usize = 0;
        assert(ps.skip(0) =~= ps);
        while i < n
            invariant
                n == ps.len(),
                ps == self.installed_players@,
                p == self.config.player.name,
                i <= n,
                player_index(ps, p) == i + player_index(ps.skip(i as int), p),
            decreases n - i,
        {
            if self.installed_players[i] == self.config.player.name {
                assert(ps.skip(i as int)[0] == ps[i as int]);
                return i;
            }
            assert(ps.skip(i as int).skip(1) =~= ps.skip(i + 1));
            i = i + 1;
        }
        assert(ps.skip(n as int).len() == 0);
        i
    }

    /// The option of a settings row that matches the current configuration.
    fn current_option_index(&self, row: usize) -> (r: usize)
        ensures
            r as int == self@.current_option_index(row),
    {
        if row == 0 {
            provider_to_index(self.config.general.series_provider)
        } else if row == 1 {
            provider_to_index(self.config.general.episode_provider)
        } else if row == 2 {
            provider_to_index(self.config.general.poster_provider)
        } else if row == 3 {
            self.player_position()
        } else if row == 4 {
            match self.config.general.default_mode {
                AudioMode::Sub => 0,
                AudioMode::Dub => 1,
            }
        } else if row == 5 {
            min_quality_to_index(self.config.general.min_quality)
        } else {
            0
        }
    }

    /// Stores the choice `option` of settings row (or setup step) `row`.
    #[verifier::rlimit(40)]
    #[verifier::spinoff_prover]
    fn apply_settings_option(&mut self, row: usize, option: usize)
        ensures
            final(self)@ == old(self)@.apply_option(row, option),
            old(self)@.wf() && option == old(self)@.current_option_index(row) ==> (final(self).config
                == old(self).config <==> old(self)@.current_value_listed(row)),
    {
        proof {
            if old(self)@.wf() {
                applying_current_option_keeps_config(self@, row);
            }
        }
        if row == 0 {
            self.config.general.series_provider = index_to_provider(option);
        } else if row == 1 {
            self.config.general.episode_provider = index_to_provider(option);
        } else if row == 2 {
            self.config.general.poster_provider = index_to_provider(option);
        } else if row == 3 {
            if option < self.installed_players.len() {
                self.config.player.name = self.installed_players[option];
            } else {
                self.config.player.name = PlayerName::Custom;
            }
        } else if row == 4 {
            self.config.general.default_mode = if option == 0 {
                AudioMode::Sub
            } else {
                AudioMode::Dub
            };
        } else if row == 5 {
            self.config.general.min_quality = index_to_min_quality(option);
        }
    }

    fn handle_settings_modal_key(&mut self, code: KeyCode) -> (r: Option<Action>)
        requires
            old(self).installed_players.len() < usize::MAX,
        ensures
            (final(self)@, follow_up_opt(r)) == old(self)@.settings_modal_key(code),
            old(self)@.wf() && old(self)@.settings_cursor_in_range() && old(self)@.settings_choices_listed()
                ==> final(self)@.settings_cursor_in_range() && final(self)@.settings_choices_listed(),
    {
        proof {
            if old(self)@.wf() && old(self)@.settings_cursor_in_range() && old(self)@.settings_choices_listed() {
                settings_key_keeps_cursor_in_range(self@, code);
            }
        }
        if self.settings_editing {
            let max_options = self.settings_option_count(self.settings_cursor);
            match code {
                KeyCode::Char('j') | KeyCode::Down => {
                    self.settings_option_cursor = step_down_exec(self.settings_option_cursor, max_options);
                    None
                },
                KeyCode::Char('k') | KeyCode::Up => {
                    self.settings_option_cursor = step_up_exec(self.settings_option_cursor);
                    None
                },
                KeyCode::Enter | KeyCode::Esc => {
                    self.apply_settings_option(self.settings_cursor, self.settings_option_cursor);
                    self.settings_editing = false;
                    Some(Action::SaveConfig)
                },
                _ => None,
            }
        } else {
            match code {
                KeyCode::Char('j') | KeyCode::Down => {
                    self.settings_cursor = step_down_exec(self.settings_cursor, SETTINGS_ROW_COUNT);
                    None
                },
                KeyCode::Char('k') | KeyCode::Up => {
                    self.settings_cursor = step_up_exec(self.settings_cursor);
                    None
                },
                KeyCode::Enter => {
                    self.settings_editing = true;
                    self.settings_option_cursor = self.current_option_index(self.settings_cursor);
                    None
                },
                KeyCode::Esc | KeyCode::Char('q') | KeyCode::Char('/') | KeyCode::Tab => {
                    self.active_modal = None;
                    None
                },
                _ => None,
            }
        }
    }

    fn handle_modal_key(&mut self, code: KeyCode) -> (r: Option<Action>)
        requires
            old(self).cursor_position <= old(self).search_input.len(),
            old(self).installed_players.len() < usize::MAX,
        ensures
            (final(self)@, follow_up_opt(r)) == old(self)@.modal_key(code),
    {
        match self.active_modal {
            Some(ModalKind::Player) => self.handle_player_modal_key(code),
            Some(ModalKind::Settings) => self.handle_settings_modal_key(code),
            Some(ModalKind::Search) => self.handle_search_modal_key(code),
            None => None,
        }
    }

    fn setup_confirm(&mut self) -> (r: Option<Action>)
        requires
            old(self).setup_step < SETUP_STEP_COUNT,
        ensures
            (final(self)@, follow_up_opt(r)) == old(self)@.setup_confirm(),
    {
        self.apply_settings_option(self.setup_step, self.setup_selected);
        self.setup_step = self.setup_step + 1;
        self.setup_selected = 0;
        if self.setup_step >= SETUP_STEP_COUNT {
            self.screen = Screen::Search;
            Some(Action::SaveConfig)
        } else {
            None
        }
    }

    fn handle_setup_normal(&mut self, code: KeyCode) -> (r: Option<Action>)
        requires
            old(self).installed_players.len() < usize::MAX,
            old(self).setup_step < SETUP_STEP_COUNT,
        ensures
            (final(self)@, follow_up_opt(r)) == old(self)@.setup_key(code),
    {
        let max_items = self.settings_option_count(self.setup_step);
        match code {
            KeyCode::Char('j') | KeyCode::Down => {
                self.setup_selected = step_down_exec(self.setup_selected, max_items);
                None
            },
            KeyCode::Char('k') | KeyCode::Up => {
                self.setup_selected = step_up_exec(self.setup_selected);
                None
            },
            KeyCode::Enter => self.setup_confirm(),
            KeyCode::Esc => {
                if self.setup_step > 0 {
                    self.setup_step = self.setup_step - 1;
                    self.setup_selected = 0;
                }
                None
            },
            KeyCode::Char('q') => {
                self.should_quit = true;
                None
            },
            _ => None,
        }
    }

    fn handle_key(&mut self, key: KeyPress) -> (r: Option<Action>)
        requires
            old(self)@.wf(),
        ensures
            (final(self)@, follow_up_opt(r)) == old(self)@.key_step(key),
    {
        if key.code == KeyCode::Char('c') && key.ctrl {
            self.should_quit = true;
            return None;
        }
        if self.show_help {
            self.show_help = false;
            return None;
        }
        if self.active_modal.is_some() {
            return self.handle_modal_key(key.code);
        }
        match self.input_mode {
            InputMode::Editing => self.handle_editing_key(key.code),
            InputMode::Normal => match self.screen {
                Screen::Search => self.handle_search_normal(key.code),
                Screen::Detail => self.handle_detail_normal(key.code),
                Screen::Setup => self.handle_setup_normal(key.code),
            },
        }
    }

    /// Fills in missing episode fields from the first matching detail record.
    fn merge_episode_details(&mut self, details: &Vec<Episode>)
        ensures
            final(self)@ == (AppView {
                episodes: merge_details(old(self)@.episodes, details@),
                ..old(self)@
            }),
    {
        let n = self.episodes.len();
        let ghost old_eps = self.episodes@;
        for i in 0..n
            invariant
                n == self.episodes.len(),
                n == old_eps.len(),
                forall|j: int| 0 <= j < i ==> self.episodes@[j] == merge_details(old_eps, details@)[j],
                forall|j: int| i <= j < n ==> self.episodes@[j] == old_eps[j],
                self@ == (AppView { episodes: self.episodes@, ..old(self)@ }),
        {
            let number = self.episodes[i].number;
            proof {
                lemma_find_detail(details@, number);
            }
            let found = find_episode_detail(details, number);
            if let Some(k) = found {
                let d = &details[k];
                let mut ep = self.episodes[i].clone();
                if ep.title.is_none() {
                    ep.title = crate::model::anime::clone_opt_string(&d.title);
                }
                if ep.synopsis.is_none() {
                    ep.synopsis = crate::model::anime::clone_opt_string(&d.synopsis);
                }
                if !ep.is_filler && d.is_filler {
                    ep.is_filler = d.is_filler;
                }
                if ep.aired.is_none() {
                    ep.aired = crate::model::anime::clone_opt_string(&d.aired);
                }
                self.episodes.set(i, ep);
            }
        }
        assert(self.episodes@ =~= merge_details(old_eps, details@));
    }

    /// Stores `streams` as the prefetched streams of the episode text `ep`.
    fn cache_streams(&mut self, ep: String, streams: Vec<StreamUrl>)
        ensures
            final(self)@ == (AppView {
                stream_cache: insert_entry(old(self)@.stream_cache, ep, streams),
                ..old(self)@
            }),
    {
        proof {
            lemma_key_pos(self.stream_cache@, ep@);
        }
        match find_key(&self.stream_cache, &ep) {
            Some(i) => {
                self.stream_cache.set(i, (ep, streams));
            },
            None => {
                self.stream_cache.push((ep, streams));
            },
        }
    }

    /// Records the pixel size of a loaded poster.
    fn cache_poster(&mut self, id: String, size: (u32, u32))
        ensures
            final(self)@ == (AppView {
                poster_cache: insert_entry(old(self)@.poster_cache, id, size),
                ..old(self)@
            }),
    {
        proof {
            lemma_key_pos(self.poster_cache@, id@);
        }
        match find_key(&self.poster_cache, &id) {
            Some(i) => {
                self.poster_cache.set(i, (id, size));
            },
            None => {
                self.poster_cache.push((id, size));
            },
        }
    }

    /// Stores a fetched synopsis on the first episode with that number.
    fn set_episode_synopsis(&mut self, n: i64, synopsis: String)
        ensures
            final(self)@ == (match episode_pos(old(self)@.episodes, n) {
                Some(i) => AppView {
                    episodes: old(self)@.episodes.update(
                        i,
                        Episode { synopsis: Some(synopsis), ..old(self)@.episodes[i] },
                    ),
                    ..old(self)@
                },
                None => old(self)@,
            }),
    {
        proof {
            lemma_episode_pos(self.episodes@, n);
        }
        let len = self.episodes.len();
        for i in 0..len
            invariant
                len == self.episodes.len(),
                self@ == old(self)@,
                forall|j: int| 0 <= j < i ==> !same_episode(self.episodes@[j].number, n),
                match episode_pos(self.episodes@, n) {
                    Some(p) => 0 <= p < self.episodes@.len() && same_episode(self.episodes@[p].number, n)
                        && forall|j: int| 0 <= j < p ==> !same_episode(self.episodes@[j].number, n),
                    None => forall|j: int| 0 <= j < self.episodes@.len() ==> !same_episode(self.episodes@[j].number, n),
                },
        {
            if same_episode_exec(self.episodes[i].number, n) {
                let mut ep = self.episodes[i].clone();
                ep.synopsis = Some(synopsis);
                self.episodes.set(i, ep);
                return;
            }
        }
    }


    fn on_search_results(&mut self, results: Vec<Anime>) -> (r: Option<Action>)
        ensures
            (final(self)@, follow_up_opt(r)) == old(self)@.step(Action::SearchResults(results)),
    {
        self.search_loading = false;
        self.search_results = results;
        self.selected_result = 0;
        self.poster_cache.clear();
        if self.search_results.len() > 0 {
            self.active_modal = None;
            self.input_mode = InputMode::Normal;
        }
        self.load_selected_poster()
    }

    fn on_episodes_loaded(&mut self, eps: Vec<Episode>) -> (r: Option<Action>)
        ensures
            (final(self)@, follow_up_opt(r)) == old(self)@.step(Action::EpisodesLoaded(eps)),
    {
        let ep_strs = episode_strings(&eps);
        let ghost e = eps@;
        assert(ep_strs@.len() == e.len()) by {
            assert(texts(ep_strs@).len() == ep_strs@.len());
            assert(episode_texts(e).len() == e.len());
        }
        self.episodes = eps;
        match &self.selected_anime {
            Some(anime) => {
                if ep_strs.len() > 0 {
                    Some(
                        Action::PrefetchAllStreams(
                            anime.id.clone(),
                            ep_strs,
                            String::from_str(self.mode_str()),
                        ),
                    )
                } else {
                    None
                }
            },
            None => None,
        }
    }

    fn on_streams_resolved(&mut self, streams: Vec<StreamUrl>) -> (r: Option<Action>)
        ensures
            (final(self)@, follow_up_opt(r)) == old(self)@.step(Action::StreamsResolved(streams)),
    {
        self.streams = streams;
        self.play_error = None;
        self.active_modal = Some(ModalKind::Player);
        if let Some(anime) = &self.selected_anime {
            self.now_playing_title = Some(anime.title.clone());
        }
        if self.selected_episode < self.episodes.len() {
            self.now_playing_episode = Some(
                format_episode_number(self.episodes[self.selected_episode].number),
            );
        }
        None
    }

    /// Handle an action and optionally return a follow-up action to dispatch asynchronously.
    #[verifier::rlimit(40)]
    pub fn handle_action(&mut self, action: Action) -> (r: Option<Action>)
        requires
            old(self)@.wf(),
        ensures
            (final(self)@, follow_up_opt(r)) == old(self)@.step(action),
            final(self)@.wf(),
    {
        proof {
            step_preserves_wf(self@, action);
        }
        match action {
            Action::Quit => {
                self.should_quit = true;
                None
            },
            Action::Key(key) => self.handle_key(key),
            Action::Back => {
                self.go_back();
                None
            },
            Action::SearchLoading => {
                self.search_loading = true;
                self.search_error = None;
                None
            },
            Action::SearchResults(results) => self.on_search_results(results),
            Action::SearchError(e) => {
                self.search_loading = false;
                self.search_error = Some(e);
                None
            },
            Action::AnimeDetail(anime) => {
                self.selected_anime = Some(*anime);
                self.screen = Screen::Detail;
                self.selected_episode = 0;
                self.detail_scroll = 0;
                self.stream_cache.clear();
                None
            },
            Action::EpisodesLoaded(eps) => self.on_episodes_loaded(eps),
            Action::SetMalId(id) => {
                self.mal_id = Some(id);
                self.maybe_load_episode_synopsis()
            },
            Action::EpisodeDetailsLoaded(details) => {
                self.merge_episode_details(&details);
                self.maybe_load_episode_synopsis()
            },
            Action::EpisodeSynopsisLoaded(n, synopsis) => {
                self.set_episode_synopsis(n, synopsis);
                None
            },
            Action::PlayLoading(info) => {
                self.active_modal = Some(ModalKind::Player);
                self.play_error = None;
                self.streams.clear();
                self.now_playing_title = Some(info);
                None
            },
            Action::StreamsResolved(streams) => self.on_streams_resolved(streams),
            Action::StreamsPrefetched(ep, streams) => {
                self.cache_streams(ep, streams);
                None
            },
            Action::PlayError(e) => {
                self.play_error = Some(e);
                self.active_modal = Some(ModalKind::Player);
                None
            },
            Action::PosterLoaded(id, w, h) => {
                self.poster_loading = None;
                if self.graphics {
                    self.cache_poster(id, (w, h));
                }
                None
            },
            Action::Error(e) => {
                self.error_message = Some(e);
                None
            },
            _ => None,
        }
    }
}

/// The episode numbers as AllAnime expects them, in order.
fn episode_strings(eps: &Vec<Episode>) -> (r: Vec<String>)
    ensures
        texts(r@) == episode_texts(eps@),
{
    let mut r: Vec<String> = Vec::new();
    let n = eps.len();
    for i in 0..n
        invariant
            n == eps.len(),
            r@.len() == i,
            forall|j: int| 0 <= j < i ==> r@[j]@ == episode_number_text(eps@[j].number as int),
    {
        r.push(format_episode_number(eps[i].number));
    }
    assert(texts(r@) =~= episode_texts(eps@));
    r
}

} // verus!
