//! The TUI state as a mathematical value and its transitions.
//!
//! `App` (in `app`) is checked against these definitions: every handler
//! leaves the state and asks for the follow-up that this module describes.

use vstd::prelude::*;

use crate::action::{Action, FollowUp, KeyCode, KeyPress};
use crate::config::{
    AudioMode, Config, GeneralConfig, MetadataProvider, MinQuality, PlayerConfig, PlayerName,
};
use crate::model::anime::{Anime, Episode};
use crate::model::stream::StreamUrl;
use crate::number::{clamp_i32, episode_number_text};

verus! {

/// Which screen is shown.
#[derive(Debug, Clone, Copy, PartialEq, Eq, Structural)]
pub enum Screen {
    Search,
    Detail,
    Setup,
}

/// Whether keys go to the search box.
#[derive(Debug, Clone, Copy, PartialEq, Eq, Structural)]
pub enum InputMode {
    Normal,
    Editing,
}

/// The overlay shown above the screen, if any.
#[derive(Debug, Clone, Copy, PartialEq, Eq, Structural)]
pub enum ModalKind {
    Settings,
    Player,
    Search,
}

/// Number of setting rows in the settings modal.
pub const SETTINGS_ROW_COUNT: usize = 6;

/// Number of steps of the setup wizard.
pub const SETUP_STEP_COUNT: usize = 6;

/// The state of the TUI with its collections as sequences.
pub struct AppView {
    pub should_quit: bool,
    pub screen: Screen,
    pub input_mode: InputMode,
    pub config: Config,
    pub search_input: Seq<char>,
    pub cursor_position: usize,
    pub search_results: Seq<Anime>,
    pub selected_result: usize,
    pub search_loading: bool,
    pub search_error: Option<String>,
    pub selected_anime: Option<Anime>,
    pub episodes: Seq<Episode>,
    pub selected_episode: usize,
    pub detail_scroll: u16,
    pub mal_id: Option<i64>,
    pub synopsis_requested: Set<i32>,
    pub streams: Seq<StreamUrl>,
    pub now_playing_title: Option<String>,
    pub now_playing_episode: Option<Seq<char>>,
    pub play_error: Option<String>,
    pub stream_cache: Seq<(String, Vec<StreamUrl>)>,
    pub setup_step: usize,
    pub setup_selected: usize,
    pub active_modal: Option<ModalKind>,
    pub settings_cursor: usize,
    pub settings_editing: bool,
    pub settings_option_cursor: usize,
    pub graphics: bool,
    pub poster_cache: Seq<(String, (u32, u32))>,
    pub poster_loading: Option<String>,
    pub tick_count: usize,
    pub error_message: Option<String>,
    pub installed_players: Seq<PlayerName>,
    pub show_help: bool,
}

/// Position of the first entry with key `k`, if any.
pub open spec fn key_pos<V>(c: Seq<(String, V)>, k: Seq<char>) -> Option<int>
    decreases c.len(),
{
    if c.len() == 0 {
        None
    } else if c[0].0@ == k {
        Some(0)
    } else {
        match key_pos(c.skip(1), k) {
            Some(i) => Some(i + 1),
            None => None,
        }
    }
}

/// The value stored under `k`, if any.
pub open spec fn lookup<V>(c: Seq<(String, V)>, k: Seq<char>) -> Option<V> {
    match key_pos(c, k) {
        Some(i) => Some(c[i].1),
        None => None,
    }
}

/// `c` with `k` bound to `v`: the entry replaced when `k` is there, added otherwise.
pub open spec fn insert_entry<V>(c: Seq<(String, V)>, k: String, v: V) -> Seq<(String, V)> {
    match key_pos(c, k@) {
        Some(i) => c.update(i, (k, v)),
        None => c.push((k, v)),
    }
}

/// `c` without the entry for `k`.
pub open spec fn remove_entry<V>(c: Seq<(String, V)>, k: Seq<char>) -> Seq<(String, V)> {
    match key_pos(c, k) {
        Some(i) => c.remove(i),
        None => c,
    }
}

/// No key occurs twice.
pub open spec fn unique_keys<V>(c: Seq<(String, V)>) -> bool {
    forall|i: int, j: int| 0 <= i < c.len() && 0 <= j < c.len() && i != j ==> c[i].0@ != c[j].0@
}

/// `min(x + 1, len - 1)`: moving a list cursor down one row.
pub open spec fn step_down(x: usize, len: usize) -> usize
    recommends
        len > 0,
{
    if x + 1 < len {
        (x + 1) as usize
    } else {
        (len - 1) as usize
    }
}

/// `x - 1`, stopping at 0: moving a list cursor up one row.
pub open spec fn step_up(x: usize) -> usize {
    if x > 0 {
        (x - 1) as usize
    } else {
        0
    }
}

/// Settings-row index of a provider.
pub open spec fn provider_index(p: MetadataProvider) -> usize {
    match p {
        MetadataProvider::Jikan => 0,
        MetadataProvider::Anilist => 1,
        MetadataProvider::Anidb => 2,
        MetadataProvider::Kitsu => 3,
        MetadataProvider::Notify => 4,
    }
}

/// Provider chosen by a settings-row index.
pub open spec fn provider_at(i: usize) -> MetadataProvider {
    if i == 0 {
        MetadataProvider::Jikan
    } else if i == 1 {
        MetadataProvider::Anilist
    } else {
        MetadataProvider::Anidb
    }
}

/// Settings-row index of a minimum quality.
pub open spec fn min_quality_index(q: MinQuality) -> usize {
    match q {
        MinQuality::Any => 0,
        MinQuality::P360 => 1,
        MinQuality::P480 => 2,
        MinQuality::P720 => 3,
        MinQuality::P1080 => 4,
    }
}

/// Minimum quality chosen by a settings-row index.
pub open spec fn min_quality_at(i: usize) -> MinQuality {
    if i == 0 {
        MinQuality::Any
    } else if i == 1 {
        MinQuality::P360
    } else if i == 2 {
        MinQuality::P480
    } else if i == 3 {
        MinQuality::P720
    } else {
        MinQuality::P1080
    }
}

/// Audio mode chosen by an option index.
pub open spec fn audio_at(i: usize) -> AudioMode {
    if i == 0 {
        AudioMode::Sub
    } else {
        AudioMode::Dub
    }
}

/// Player chosen by an option index: a detected player, else `Custom`.
pub open spec fn player_at(installed: Seq<PlayerName>, i: usize) -> PlayerName {
    if i < installed.len() {
        installed[i as int]
    } else {
        PlayerName::Custom
    }
}

/// Position of `p` among the detected players, or their count.
pub open spec fn player_index(installed: Seq<PlayerName>, p: PlayerName) -> int
    decreases installed.len(),
{
    if installed.len() == 0 {
        0
    } else if installed[0] == p {
        0
    } else {
        1 + player_index(installed.skip(1), p)
    }
}

/// The audio mode as AllAnime names it.
pub open spec fn mode_text(c: Config) -> Seq<char> {
    match c.general.default_mode {
        AudioMode::Sub => "sub"@,
        AudioMode::Dub => "dub"@,
    }
}

/// Episode numbers within 0.01 of each other are the same episode.
pub open spec fn same_episode(a: i64, b: i64) -> bool {
    -10 < a - b < 10
}

/// The first detail record for the episode numbered `n`.
pub open spec fn find_detail(details: Seq<Episode>, n: i64) -> Option<Episode>
    decreases details.len(),
{
    if details.len() == 0 {
        None
    } else if same_episode(details[0].number, n) {
        Some(details[0])
    } else {
        find_detail(details.skip(1), n)
    }
}

/// `ep` with its missing fields filled in from `d`; filler is set when either says so.
pub open spec fn merge_episode(ep: Episode, d: Episode) -> Episode {
    Episode {
        number: ep.number,
        title: if ep.title is None { d.title } else { ep.title },
        synopsis: if ep.synopsis is None { d.synopsis } else { ep.synopsis },
        is_filler: ep.is_filler || d.is_filler,
        aired: if ep.aired is None { d.aired } else { ep.aired },
    }
}

/// Every episode merged with the first matching detail record.
pub open spec fn merge_details(eps: Seq<Episode>, details: Seq<Episode>) -> Seq<Episode> {
    Seq::new(
        eps.len(),
        |i: int|
            match find_detail(details, eps[i].number) {
                Some(d) => merge_episode(eps[i], d),
                None => eps[i],
            },
    )
}

/// Position of the first episode numbered like `n`.
pub open spec fn episode_pos(eps: Seq<Episode>, n: i64) -> Option<int>
    decreases eps.len(),
{
    if eps.len() == 0 {
        None
    } else if same_episode(eps[0].number, n) {
        Some(0)
    } else {
        match episode_pos(eps.skip(1), n) {
            Some(i) => Some(i + 1),
            None => None,
        }
    }
}

/// The episode numbers as AllAnime expects them.
pub open spec fn episode_texts(eps: Seq<Episode>) -> Seq<Seq<char>> {
    eps.map_values(|e: Episode| episode_number_text(e.number as int))
}

pub proof fn lemma_key_pos<V>(c: Seq<(String, V)>, k: Seq<char>)
    ensures
        match key_pos(c, k) {
            Some(i) => 0 <= i < c.len() && c[i].0@ == k && forall|j: int|
                0 <= j < i ==> c[j].0@ != k,
            None => forall|j: int| 0 <= j < c.len() ==> c[j].0@ != k,
        },
    decreases c.len(),
{
    if c.len() > 0 && c[0].0@ != k {
        lemma_key_pos(c.skip(1), k);
        assert forall|j: int| 1 <= j < c.len() implies c[j] == c.skip(1)[j - 1] by {}
    }
}

/// Storing `v` under `k` keeps keys unique, and looking `k` up then gives `v`.
pub proof fn lemma_insert_entry_unique<V>(c: Seq<(String, V)>, k: String, v: V)
    requires
        unique_keys(c),
    ensures
        unique_keys(insert_entry(c, k, v)),
        lookup(insert_entry(c, k, v), k@) == Some(v),
{
    lemma_key_pos(c, k@);
    let c2 = insert_entry(c, k, v);
    lemma_key_pos(c2, k@);
    match key_pos(c, k@) {
        Some(i) => {
            assert(c2[i].0@ == k@);
        },
        None => {
            assert(c2[c.len() as int].0@ == k@);
        },
    }
}

/// The state at start-up: the setup wizard when no config file exists yet,
/// otherwise the search screen with the cursor in the search box.
pub open spec fn initial(config: Config, needs_setup: bool, graphics: bool, installed: Seq<PlayerName>) -> AppView {
    AppView {
        should_quit: false,
        screen: if needs_setup { Screen::Setup } else { Screen::Search },
        input_mode: if needs_setup { InputMode::Normal } else { InputMode::Editing },
        config,
        search_input: Seq::empty(),
        cursor_position: 0,
        search_results: Seq::empty(),
        selected_result: 0,
        search_loading: false,
        search_error: None,
        selected_anime: None,
        episodes: Seq::empty(),
        selected_episode: 0,
        detail_scroll: 0,
        mal_id: None,
        synopsis_requested: Set::empty(),
        streams: Seq::empty(),
        now_playing_title: None,
        now_playing_episode: None,
        play_error: None,
        stream_cache: Seq::empty(),
        setup_step: 0,
        setup_selected: 0,
        active_modal: None,
        settings_cursor: 0,
        settings_editing: false,
        settings_option_cursor: 0,
        graphics,
        poster_cache: Seq::empty(),
        poster_loading: None,
        tick_count: 0,
        error_message: None,
        installed_players: installed,
        show_help: false,
    }
}

impl AppView {
    /// Number of choices on a setup step.
    pub open spec fn setup_item_count(self, step: usize) -> int {
        if step <= 2 {
            3
        } else if step == 3 {
            self.installed_players.len() + 1int
        } else if step == 4 {
            2
        } else if step == 5 {
            5
        } else {
            1
        }
    }

    /// Number of choices in a settings row.
    pub open spec fn option_count(self, row: usize) -> int {
        if row <= 2 {
            3
        } else if row == 3 {
            self.installed_players.len() + 1int
        } else if row == 4 {
            2
        } else if row == 5 {
            5
        } else {
            1
        }
    }

    /// The state invariant.
    pub open spec fn wf(self) -> bool {
        &&& self.cursor_position <= self.search_input.len()
        &&& self.search_results.len() == 0 ==> self.selected_result == 0
        &&& self.search_results.len() > 0 ==> self.selected_result < self.search_results.len()
        &&& self.settings_cursor < SETTINGS_ROW_COUNT
        &&& self.setup_step <= SETUP_STEP_COUNT
        &&& self.screen == Screen::Setup ==> self.setup_step < SETUP_STEP_COUNT
        &&& unique_keys(self.stream_cache)
        &&& unique_keys(self.poster_cache)
        &&& self.installed_players.len() < usize::MAX
    }

    pub open spec fn quit(self) -> AppView {
        AppView { should_quit: true, ..self }
    }

    /// The search box with the cursor in it, over the current screen.
    pub open spec fn focus_search(self) -> AppView {
        AppView { active_modal: Some(ModalKind::Search), input_mode: InputMode::Editing, ..self }
    }

    pub open spec fn open_settings(self) -> AppView {
        AppView {
            active_modal: Some(ModalKind::Settings),
            settings_cursor: 0,
            settings_editing: false,
            settings_option_cursor: 0,
            ..self
        }
    }

    /// Asks for the poster of the highlighted result unless it is cached or loading.
    pub open spec fn load_selected_poster(self) -> (AppView, Option<FollowUp>) {
        if self.selected_result < self.search_results.len() {
            let anime = self.search_results[self.selected_result as int];
            match anime.poster_url {
                None => (self, None),
                Some(url) => {
                    if key_pos(self.poster_cache, anime.id@) is Some {
                        (self, None)
                    } else if self.poster_loading matches Some(p) && p@ == anime.id@ {
                        (self, None)
                    } else {
                        (
                            AppView { poster_loading: Some(anime.id), ..self },
                            Some(FollowUp::LoadPoster(anime.id@, url@)),
                        )
                    }
                },
            }
        } else {
            (self, None)
        }
    }

    /// Asks Jikan for the synopsis of the highlighted episode, once per episode.
    pub open spec fn maybe_load_episode_synopsis(self) -> (AppView, Option<FollowUp>) {
        match self.mal_id {
            None => (self, None),
            Some(mal_id) => {
                if self.selected_episode < self.episodes.len() {
                    let ep = self.episodes[self.selected_episode as int];
                    if ep.synopsis is Some || ep.number % 1000 != 0 {
                        (self, None)
                    } else {
                        let k = clamp_i32(ep.number / 1000) as i32;
                        if self.synopsis_requested.contains(k) {
                            (self, None)
                        } else {
                            (
                                AppView { synopsis_requested: self.synopsis_requested.insert(k), ..self },
                                Some(FollowUp::FetchEpisodeSynopsis(mal_id, k)),
                            )
                        }
                    }
                } else {
                    (self, None)
                }
            },
        }
    }

    /// Asks for the streams of the highlighted episode unless they are cached.
    pub open spec fn maybe_prefetch_streams(self) -> Option<FollowUp> {
        match self.selected_anime {
            None => None,
            Some(anime) => {
                if self.selected_episode < self.episodes.len() {
                    let ep_str = episode_number_text(
                        self.episodes[self.selected_episode as int].number as int,
                    );
                    if key_pos(self.stream_cache, ep_str) is Some {
                        None
                    } else {
                        Some(FollowUp::PrefetchStreams(anime.id@, ep_str, mode_text(self.config)))
                    }
                } else {
                    None
                }
            },
        }
    }

    /// Synopsis first, then stream prefetch.
    pub open spec fn after_episode_move(self) -> (AppView, Option<FollowUp>) {
        let (s1, f) = self.maybe_load_episode_synopsis();
        if f is Some {
            (s1, f)
        } else {
            (s1, s1.maybe_prefetch_streams())
        }
    }

    /// Leaves a modal, or the detail screen.
    pub open spec fn go_back(self) -> AppView {
        if self.active_modal is Some {
            AppView { active_modal: None, play_error: None, ..self }
        } else if self.screen == Screen::Detail {
            AppView {
                screen: Screen::Search,
                selected_anime: None,
                episodes: Seq::empty(),
                mal_id: None,
                synopsis_requested: Set::empty(),
                ..self
            }
        } else {
            self
        }
    }

    /// Types `c` at the cursor.
    pub open spec fn type_char(self, c: char) -> AppView {
        AppView {
            search_input: self.search_input.insert(self.cursor_position as int, c),
            cursor_position: (self.cursor_position + 1) as usize,
            ..self
        }
    }

    /// Deletes the character before the cursor.
    pub open spec fn backspace(self) -> AppView {
        if self.cursor_position > 0 {
            AppView {
                search_input: self.search_input.remove(self.cursor_position - 1),
                cursor_position: (self.cursor_position - 1) as usize,
                ..self
            }
        } else {
            self
        }
    }

    pub open spec fn cursor_left(self) -> AppView {
        AppView { cursor_position: step_up(self.cursor_position), ..self }
    }

    pub open spec fn cursor_right(self) -> AppView {
        if self.cursor_position < self.search_input.len() {
            AppView { cursor_position: (self.cursor_position + 1) as usize, ..self }
        } else {
            self
        }
    }

    pub open spec fn search_normal_key(self, code: KeyCode) -> (AppView, Option<FollowUp>) {
        match code {
            KeyCode::Char('q') | KeyCode::Esc => (self.quit(), None),
            KeyCode::Char('s') | KeyCode::Char('i') | KeyCode::Char('/') => (self.focus_search(), None),
            KeyCode::Tab => (self.open_settings(), None),
            KeyCode::Char('?') => (AppView { show_help: true, ..self }, None),
            KeyCode::Char('j') | KeyCode::Down => {
                let s1 = if self.search_results.len() > 0 {
                    AppView {
                        selected_result: step_down(
                            self.selected_result,
                            self.search_results.len() as usize,
                        ),
                        ..self
                    }
                } else {
                    self
                };
                s1.load_selected_poster()
            },
            KeyCode::Char('k') | KeyCode::Up => AppView {
                selected_result: step_up(self.selected_result),
                ..self
            }.load_selected_poster(),
            KeyCode::Enter | KeyCode::Char('l') | KeyCode::Right => {
                if self.search_results.len() > 0 {
                    (self, Some(FollowUp::SelectAnime(self.selected_result)))
                } else {
                    (self, None)
                }
            },
            _ => (self, None),
        }
    }

    pub open spec fn editing_key(self, code: KeyCode) -> (AppView, Option<FollowUp>) {
        match code {
            KeyCode::Esc => {
                if self.search_results.len() == 0 {
                    (self.quit(), None)
                } else {
                    (AppView { input_mode: InputMode::Normal, ..self }, None)
                }
            },
            KeyCode::Tab => (self.open_settings(), None),
            KeyCode::Char(c) => (self.type_char(c), None),
            KeyCode::Backspace => (self.backspace(), None),
            KeyCode::Left => (self.cursor_left(), None),
            KeyCode::Right => (self.cursor_right(), None),
            KeyCode::Enter => {
                if self.search_input.len() > 0 {
                    (
                        AppView { input_mode: InputMode::Normal, ..self },
                        Some(FollowUp::Search(self.search_input)),
                    )
                } else {
                    (self, None)
                }
            },
            _ => (self, None),
        }
    }

    pub open spec fn detail_normal_key(self, code: KeyCode) -> (AppView, Option<FollowUp>) {
        match code {
            KeyCode::Char('q') => (self.quit(), None),
            KeyCode::Char('/') => (self.go_back().focus_search(), None),
            KeyCode::Tab => (self.open_settings(), None),
            KeyCode::Char('?') => (AppView { show_help: true, ..self }, None),
            KeyCode::Esc | KeyCode::Char('h') | KeyCode::Left => (self.go_back(), None),
            KeyCode::Char('j') | KeyCode::Down => {
                let s1 = if self.episodes.len() > 0 {
                    AppView {
                        selected_episode: step_down(
                            self.selected_episode,
                            self.episodes.len() as usize,
                        ),
                        ..self
                    }
                } else {
                    self
                };
                s1.after_episode_move()
            },
            KeyCode::Char('k') | KeyCode::Up => AppView {
                selected_episode: step_up(self.selected_episode),
                ..self
            }.after_episode_move(),
            KeyCode::Enter | KeyCode::Char('l') | KeyCode::Right => {
                if self.episodes.len() > 0 {
                    (self, Some(FollowUp::SelectEpisode(self.selected_episode)))
                } else {
                    (self, None)
                }
            },
            _ => (self, None),
        }
    }

    pub open spec fn search_modal_key(self, code: KeyCode) -> (AppView, Option<FollowUp>) {
        match code {
            KeyCode::Esc => {
                if self.search_results.len() == 0 {
                    (self.quit(), None)
                } else {
                    (
                        AppView { active_modal: None, input_mode: InputMode::Normal, ..self },
                        None,
                    )
                }
            },
            KeyCode::Char(c) => (self.type_char(c), None),
            KeyCode::Backspace => (self.backspace(), None),
            KeyCode::Left => (self.cursor_left(), None),
            KeyCode::Right => (self.cursor_right(), None),
            KeyCode::Enter => {
                if self.search_input.len() > 0 {
                    (self, Some(FollowUp::Search(self.search_input)))
                } else {
                    (self, None)
                }
            },
            _ => (self, None),
        }
    }

    pub open spec fn player_modal_key(self, code: KeyCode) -> (AppView, Option<FollowUp>) {
        match code {
            KeyCode::Char('q') => (self.quit(), None),
            KeyCode::Esc => (AppView { active_modal: None, play_error: None, ..self }, None),
            KeyCode::Char('n') => {
                if self.selected_episode + 1 < self.episodes.len() {
                    let e = (self.selected_episode + 1) as usize;
                    (AppView { selected_episode: e, ..self }, Some(FollowUp::SelectEpisode(e)))
                } else {
                    (self, None)
                }
            },
            KeyCode::Char('p') => {
                if self.selected_episode > 0 {
                    let e = (self.selected_episode - 1) as usize;
                    (AppView { selected_episode: e, ..self }, Some(FollowUp::SelectEpisode(e)))
                } else {
                    (self, None)
                }
            },
            _ => (self, None),
        }
    }

    /// The option of a settings row that matches the current configuration.
    pub open spec fn current_option_index(self, row: usize) -> int {
        if row == 0 {
            provider_index(self.config.general.series_provider) as int
        } else if row == 1 {
            provider_index(self.config.general.episode_provider) as int
        } else if row == 2 {
            provider_index(self.config.general.poster_provider) as int
        } else if row == 3 {
            player_index(self.installed_players, self.config.player.name)
        } else if row == 4 {
            match self.config.general.default_mode {
                AudioMode::Sub => 0,
                AudioMode::Dub => 1,
            }
        } else if row == 5 {
            min_quality_index(self.config.general.min_quality) as int
        } else {
            0
        }
    }

    /// The configuration after choosing `option` in settings row (or setup step) `row`.
    pub open spec fn apply_option(self, row: usize, option: usize) -> AppView {
        let c = self.config;
        let g = c.general;
        if row == 0 {
            AppView { config: Config { general: GeneralConfig { series_provider: provider_at(option), ..g }, ..c }, ..self }
        } else if row == 1 {
            AppView { config: Config { general: GeneralConfig { episode_provider: provider_at(option), ..g }, ..c }, ..self }
        } else if row == 2 {
            AppView { config: Config { general: GeneralConfig { poster_provider: provider_at(option), ..g }, ..c }, ..self }
        } else if row == 3 {
            AppView {
                config: Config {
                    player: PlayerConfig {
                        name: player_at(self.installed_players, option),
                        ..c.player
                    },
                    ..c
                },
                ..self
            }
        } else if row == 4 {
            AppView { config: Config { general: GeneralConfig { default_mode: audio_at(option), ..g }, ..c }, ..self }
        } else if row == 5 {
            AppView { config: Config { general: GeneralConfig { min_quality: min_quality_at(option), ..g }, ..c }, ..self }
        } else {
            self
        }
    }

    pub open spec fn settings_modal_key(self, code: KeyCode) -> (AppView, Option<FollowUp>) {
        if self.settings_editing {
            let max = self.option_count(self.settings_cursor);
            match code {
                KeyCode::Char('j') | KeyCode::Down => (
                    AppView {
                        settings_option_cursor: step_down(self.settings_option_cursor, max as usize),
                        ..self
                    },
                    None,
                ),
                KeyCode::Char('k') | KeyCode::Up => (
                    AppView { settings_option_cursor: step_up(self.settings_option_cursor), ..self },
                    None,
                ),
                KeyCode::Enter | KeyCode::Esc => (
                    AppView {
                        settings_editing: false,
                        ..self.apply_option(self.settings_cursor, self.settings_option_cursor)
                    },
                    Some(FollowUp::SaveConfig),
                ),
                _ => (self, None),
            }
        } else {
            match code {
                KeyCode::Char('j') | KeyCode::Down => (
                    AppView {
                        settings_cursor: step_down(self.settings_cursor, SETTINGS_ROW_COUNT),
                        ..self
                    },
                    None,
                ),
                KeyCode::Char('k') | KeyCode::Up => (
                    AppView { settings_cursor: step_up(self.settings_cursor), ..self },
                    None,
                ),
                KeyCode::Enter => (
                    AppView {
                        settings_editing: true,
                        settings_option_cursor: self.current_option_index(self.settings_cursor) as usize,
                        ..self
                    },
                    None,
                ),
                KeyCode::Esc | KeyCode::Char('q') | KeyCode::Char('/') | KeyCode::Tab => (
                    AppView { active_modal: None, ..self },
                    None,
                ),
                _ => (self, None),
            }
        }
    }

    pub open spec fn modal_key(self, code: KeyCode) -> (AppView, Option<FollowUp>) {
        match self.active_modal {
            Some(ModalKind::Player) => self.player_modal_key(code),
            Some(ModalKind::Settings) => self.settings_modal_key(code),
            Some(ModalKind::Search) => self.search_modal_key(code),
            None => (self, None),
        }
    }

    /// Stores the highlighted setup choice and moves to the next step;
    /// after the last step the search screen opens and the settings are saved.
    pub open spec fn setup_confirm(self) -> (AppView, Option<FollowUp>) {
        let s1 = self.apply_option(self.setup_step, self.setup_selected);
        let step = (self.setup_step + 1) as usize;
        let s2 = AppView { setup_step: step, setup_selected: 0, ..s1 };
        if step >= SETUP_STEP_COUNT {
            (AppView { screen: Screen::Search, ..s2 }, Some(FollowUp::SaveConfig))
        } else {
            (s2, None)
        }
    }

    pub open spec fn setup_key(self, code: KeyCode) -> (AppView, Option<FollowUp>) {
        let max = self.setup_item_count(self.setup_step);
        match code {
            KeyCode::Char('j') | KeyCode::Down => (
                AppView { setup_selected: step_down(self.setup_selected, max as usize), ..self },
                None,
            ),
            KeyCode::Char('k') | KeyCode::Up => (
                AppView { setup_selected: step_up(self.setup_selected), ..self },
                None,
            ),
            KeyCode::Enter => self.setup_confirm(),
            KeyCode::Esc => {
                if self.setup_step > 0 {
                    (
                        AppView {
                            setup_step: (self.setup_step - 1) as usize,
                            setup_selected: 0,
                            ..self
                        },
                        None,
                    )
                } else {
                    (self, None)
                }
            },
            KeyCode::Char('q') => (self.quit(), None),
            _ => (self, None),
        }
    }

    /// What a key press does.
    pub open spec fn key_step(self, key: KeyPress) -> (AppView, Option<FollowUp>) {
        if key.code == KeyCode::Char('c') && key.ctrl {
            (self.quit(), None)
        } else if self.show_help {
            (AppView { show_help: false, ..self }, None)
        } else if self.active_modal is Some {
            self.modal_key(key.code)
        } else {
            match self.input_mode {
                InputMode::Editing => self.editing_key(key.code),
                InputMode::Normal => match self.screen {
                    Screen::Search => self.search_normal_key(key.code),
                    Screen::Detail => self.detail_normal_key(key.code),
                    Screen::Setup => self.setup_key(key.code),
                },
            }
        }
    }

    /// What an action does to the state, and the follow-up it asks for.
    pub open spec fn step(self, action: Action) -> (AppView, Option<FollowUp>) {
        match action {
            Action::Quit => (self.quit(), None),
            Action::Key(key) => self.key_step(key),
            Action::Back => (self.go_back(), None),
            Action::SearchLoading => (
                AppView { search_loading: true, search_error: None, ..self },
                None,
            ),
            Action::SearchResults(results) => {
                let s1 = AppView {
                    search_loading: false,
                    search_results: results@,
                    selected_result: 0,
                    poster_cache: Seq::empty(),
                    ..self
                };
                let s2 = if results@.len() > 0 {
                    AppView { active_modal: None, input_mode: InputMode::Normal, ..s1 }
                } else {
                    s1
                };
                s2.load_selected_poster()
            },
            Action::SearchError(e) => (
                AppView { search_loading: false, search_error: Some(e), ..self },
                None,
            ),
            Action::AnimeDetail(anime) => (
                AppView {
                    selected_anime: Some(*anime),
                    screen: Screen::Detail,
                    selected_episode: 0,
                    detail_scroll: 0,
                    stream_cache: Seq::empty(),
                    ..self
                },
                None,
            ),
            Action::EpisodesLoaded(eps) => {
                let s1 = AppView { episodes: eps@, ..self };
                match self.selected_anime {
                    Some(anime) => {
                        if eps@.len() > 0 {
                            (
                                s1,
                                Some(
                                    FollowUp::PrefetchAllStreams(
                                        anime.id@,
                                        episode_texts(eps@),
                                        mode_text(self.config),
                                    ),
                                ),
                            )
                        } else {
                            (s1, None)
                        }
                    },
                    None => (s1, None),
                }
            },
            Action::SetMalId(id) => AppView {
                mal_id: Some(id),
                ..self
            }.maybe_load_episode_synopsis(),
            Action::EpisodeDetailsLoaded(details) => AppView {
                episodes: merge_details(self.episodes, details@),
                ..self
            }.maybe_load_episode_synopsis(),
            Action::EpisodeSynopsisLoaded(n, synopsis) => {
                match episode_pos(self.episodes, n) {
                    Some(i) => (
                        AppView {
                            episodes: self.episodes.update(
                                i,
                                Episode { synopsis: Some(synopsis), ..self.episodes[i] },
                            ),
                            ..self
                        },
                        None,
                    ),
                    None => (self, None),
                }
            },
            Action::PlayLoading(info) => (
                AppView {
                    active_modal: Some(ModalKind::Player),
                    play_error: None,
                    streams: Seq::empty(),
                    now_playing_title: Some(info),
                    ..self
                },
                None,
            ),
            Action::StreamsResolved(streams) => (
                AppView {
                    streams: streams@,
                    play_error: None,
                    active_modal: Some(ModalKind::Player),
                    now_playing_title: match self.selected_anime {
                        Some(a) => Some(a.title),
                        None => self.now_playing_title,
                    },
                    now_playing_episode: if self.selected_episode < self.episodes.len() {
                        Some(
                            episode_number_text(
                                self.episodes[self.selected_episode as int].number as int,
                            ),
                        )
                    } else {
                        self.now_playing_episode
                    },
                    ..self
                },
                None,
            ),
            Action::StreamsPrefetched(ep, streams) => (
                AppView { stream_cache: insert_entry(self.stream_cache, ep, streams), ..self },
                None,
            ),
            Action::PlayError(e) => (
                AppView { play_error: Some(e), active_modal: Some(ModalKind::Player), ..self },
                None,
            ),
            Action::PosterLoaded(id, w, h) => (
                AppView {
                    poster_loading: None,
                    poster_cache: if self.graphics {
                        insert_entry(self.poster_cache, id, (w, h))
                    } else {
                        self.poster_cache
                    },
                    ..self
                },
                None,
            ),
            Action::Error(e) => (AppView { error_message: Some(e), ..self }, None),
            _ => (self, None),
        }
    }
}


proof fn lemma_poster_wf(s: AppView)
    requires
        s.wf(),
    ensures
        s.load_selected_poster().0.wf(),
{
}

proof fn lemma_synopsis_wf(s: AppView)
    requires
        s.wf(),
    ensures
        s.maybe_load_episode_synopsis().0.wf(),
{
}

proof fn lemma_search_normal_wf(s: AppView, code: KeyCode)
    requires
        s.wf(),
    ensures
        s.search_normal_key(code).0.wf(),
{
    let sr = if s.search_results.len() > 0 {
        AppView { selected_result: step_down(s.selected_result, s.search_results.len() as usize), ..s }
    } else {
        s
    };
    lemma_poster_wf(sr);
    lemma_poster_wf(AppView { selected_result: step_up(s.selected_result), ..s });
}

proof fn lemma_detail_wf(s: AppView, code: KeyCode)
    requires
        s.wf(),
    ensures
        s.detail_normal_key(code).0.wf(),
{
    let sd = if s.episodes.len() > 0 {
        AppView { selected_episode: step_down(s.selected_episode, s.episodes.len() as usize), ..s }
    } else {
        s
    };
    lemma_synopsis_wf(sd);
    lemma_synopsis_wf(AppView { selected_episode: step_up(s.selected_episode), ..s });
}

proof fn lemma_editing_wf(s: AppView, code: KeyCode)
    requires
        s.wf(),
    ensures
        s.editing_key(code).0.wf(),
        s.search_modal_key(code).0.wf(),
{
}

proof fn lemma_settings_wf(s: AppView, code: KeyCode)
    requires
        s.wf(),
    ensures
        s.settings_modal_key(code).0.wf(),
        s.player_modal_key(code).0.wf(),
{
}

proof fn lemma_setup_wf(s: AppView, code: KeyCode)
    requires
        s.wf(),
        s.screen == Screen::Setup,
    ensures
        s.setup_key(code).0.wf(),
{
}

proof fn lemma_key_wf(s: AppView, key: KeyPress)
    requires
        s.wf(),
    ensures
        s.key_step(key).0.wf(),
{
    if key.code == KeyCode::Char('c') && key.ctrl {
    } else if s.active_modal is Some {
        lemma_editing_wf(s, key.code);
        lemma_settings_wf(s, key.code);
    } else {
        match s.input_mode {
            InputMode::Editing => lemma_editing_wf(s, key.code),
            InputMode::Normal => match s.screen {
                Screen::Search => lemma_search_normal_wf(s, key.code),
                Screen::Detail => lemma_detail_wf(s, key.code),
                Screen::Setup => lemma_setup_wf(s, key.code),
            },
        }
    }
}

/// Every action keeps the state invariant: the text cursor stays inside the
/// search text, the highlighted result inside the results, the settings
/// cursor on a row, the setup wizard on one of its steps with a valid
/// choice highlighted, no episode's synopsis is requested twice, and each
/// cache holds one entry per key.
pub proof fn step_preserves_wf(s: AppView, a: Action)
    requires
        s.wf(),
    ensures
        s.step(a).0.wf(),
{
    match a {
        Action::Key(key) => lemma_key_wf(s, key),
        Action::SearchResults(results) => {
            let s1 = AppView {
                search_loading: false,
                search_results: results@,
                selected_result: 0,
                poster_cache: Seq::empty(),
                ..s
            };
            let s2 = if results@.len() > 0 {
                AppView { active_modal: None, input_mode: InputMode::Normal, ..s1 }
            } else {
                s1
            };
            lemma_poster_wf(s2);
        },
        Action::SetMalId(id) => lemma_synopsis_wf(AppView { mal_id: Some(id), ..s }),
        Action::EpisodeDetailsLoaded(details) => lemma_synopsis_wf(
            AppView { episodes: merge_details(s.episodes, details@), ..s },
        ),
        Action::StreamsPrefetched(ep, streams) => lemma_insert_entry_unique(
            s.stream_cache,
            ep,
            streams,
        ),
        Action::PosterLoaded(id, w, h) => lemma_insert_entry_unique(s.poster_cache, id, (w, h)),
        _ => {},
    }
}


/// Ctrl-C quits from every screen, modal and input mode, and asks for nothing more.
pub proof fn ctrl_c_always_quits(s: AppView)
    ensures
        s.step(Action::Key(KeyPress { code: KeyCode::Char('c'), ctrl: true })) == (s.quit(), None::<FollowUp>),
{
}

/// Looking for the synopsis of the highlighted episode asks only for an
/// episode not asked for before, and records it.
pub proof fn lemma_synopsis_once(s: AppView)
    ensures
        s.maybe_load_episode_synopsis().1 matches Some(FollowUp::FetchEpisodeSynopsis(m, k))
            ==> !s.synopsis_requested.contains(k)
            && s.maybe_load_episode_synopsis().0.synopsis_requested.contains(k),
        s.maybe_load_episode_synopsis().1 is Some
            ==> s.maybe_load_episode_synopsis().0.maybe_load_episode_synopsis().1 is None,
{
}

proof fn lemma_after_move_once(s: AppView)
    ensures
        s.after_episode_move().1 matches Some(FollowUp::FetchEpisodeSynopsis(m, k))
            ==> !s.synopsis_requested.contains(k)
            && s.after_episode_move().0.synopsis_requested.contains(k),
{
    lemma_synopsis_once(s);
}

proof fn lemma_detail_once(s: AppView, code: KeyCode)
    ensures
        s.detail_normal_key(code).1 matches Some(FollowUp::FetchEpisodeSynopsis(m, k))
            ==> !s.synopsis_requested.contains(k)
            && s.detail_normal_key(code).0.synopsis_requested.contains(k),
{
    let sd = if s.episodes.len() > 0 {
        AppView { selected_episode: step_down(s.selected_episode, s.episodes.len() as usize), ..s }
    } else {
        s
    };
    lemma_after_move_once(sd);
    lemma_after_move_once(AppView { selected_episode: step_up(s.selected_episode), ..s });
}

proof fn lemma_key_once(s: AppView, key: KeyPress)
    ensures
        s.key_step(key).1 matches Some(FollowUp::FetchEpisodeSynopsis(m, k))
            ==> !s.synopsis_requested.contains(k)
            && s.key_step(key).0.synopsis_requested.contains(k),
{
    if key.code == KeyCode::Char('c') && key.ctrl {
    } else if s.active_modal is Some {
    } else if s.input_mode == InputMode::Normal && s.screen == Screen::Detail {
        lemma_detail_once(s, key.code);
    }
}

/// The synopsis of an episode is asked for at most once: an action that asks
/// for it asks only for an episode not asked for before, and records it.
pub proof fn synopsis_requested_at_most_once(s: AppView, a: Action)
    ensures
        s.step(a).1 matches Some(FollowUp::FetchEpisodeSynopsis(m, k))
            ==> !s.synopsis_requested.contains(k) && s.step(a).0.synopsis_requested.contains(k),
{
    match a {
        Action::Key(key) => lemma_key_once(s, key),
        Action::SetMalId(id) => lemma_synopsis_once(AppView { mal_id: Some(id), ..s }),
        Action::EpisodeDetailsLoaded(details) => lemma_synopsis_once(
            AppView { episodes: merge_details(s.episodes, details@), ..s },
        ),
        _ => {},
    }
}

/// Confirming the last step of the setup wizard opens the search screen and
/// asks for the settings to be saved.
pub proof fn setup_finish_saves(s: AppView)
    requires
        !s.show_help,
        s.screen == Screen::Setup,
        s.active_modal is None,
        s.input_mode == InputMode::Normal,
        s.setup_step + 1 == SETUP_STEP_COUNT,
    ensures
        s.step(Action::Key(KeyPress { code: KeyCode::Enter, ctrl: false })).0.screen == Screen::Search,
        s.step(Action::Key(KeyPress { code: KeyCode::Enter, ctrl: false })).1 == Some(FollowUp::SaveConfig),
{
}

/// Streams that were fetched ahead for an episode are what the cache then gives for it.
pub proof fn prefetched_streams_are_cached(s: AppView, ep: String, streams: Vec<StreamUrl>)
    requires
        s.wf(),
    ensures
        lookup(s.step(Action::StreamsPrefetched(ep, streams)).0.stream_cache, ep@) == Some(streams),
{
    lemma_insert_entry_unique(s.stream_cache, ep, streams);
}

/// With graphics on, a loaded poster is what the cache then gives for its anime.
pub proof fn loaded_poster_is_cached(s: AppView, id: String, w: u32, h: u32)
    requires
        s.wf(),
        s.graphics,
    ensures
        lookup(s.step(Action::PosterLoaded(id, w, h)).0.poster_cache, id@) == Some((w, h)),
{
    lemma_insert_entry_unique(s.poster_cache, id, (w, h));
}

/// Backspace right after typing a character in the search box gives the
/// text and the cursor position back.
pub proof fn backspace_undoes_typing(s: AppView, c: char)
    requires
        !s.show_help,
        s.wf(),
        s.active_modal is None,
        s.input_mode == InputMode::Editing,
        s.cursor_position < usize::MAX,
    ensures
        ({
            let s1 = s.step(Action::Key(KeyPress { code: KeyCode::Char(c), ctrl: false })).0;
            let s2 = s1.step(Action::Key(KeyPress { code: KeyCode::Backspace, ctrl: false })).0;
            s2.search_input == s.search_input && s2.cursor_position == s.cursor_position
        }),
{
    let s1 = s.type_char(c);
    assert(s1.search_input.remove(s.cursor_position as int) =~= s.search_input);
}

proof fn lemma_player_index(installed: Seq<PlayerName>, p: PlayerName)
    ensures
        0 <= player_index(installed, p) <= installed.len(),
        player_index(installed, p) < installed.len() ==> installed[player_index(installed, p)] == p,
        player_index(installed, p) == installed.len() ==> !installed.contains(p),
    decreases installed.len(),
{
    if installed.len() > 0 && installed[0] != p {
        lemma_player_index(installed.skip(1), p);
        let i = player_index(installed.skip(1), p);
        if i < installed.skip(1).len() {
            assert(installed[i + 1] == installed.skip(1)[i]);
        } else {
            assert forall|j: int| 0 <= j < installed.len() implies installed[j] != p by {
                if j > 0 {
                    assert(installed[j] == installed.skip(1)[j - 1]);
                }
            }
        }
    }
}

/// Opening a settings row and confirming the option it opens on leaves the
/// configuration as it was (and asks for it to be saved). This holds for the
/// rows whose current value is among the row's options: a provider the rows
/// list, and a player that was detected or the custom one.
pub proof fn confirming_current_option_keeps_config(s: AppView)
    requires
        !s.show_help,
        s.wf(),
        s.active_modal == Some(ModalKind::Settings),
        !s.settings_editing,
        s.settings_cursor == 0 ==> provider_index(s.config.general.series_provider) < 3,
        s.settings_cursor == 1 ==> provider_index(s.config.general.episode_provider) < 3,
        s.settings_cursor == 2 ==> provider_index(s.config.general.poster_provider) < 3,
        s.settings_cursor == 3 ==> (s.installed_players.contains(s.config.player.name) || (
        s.config.player.name == PlayerName::Custom)),
    ensures
        ({
            let enter = Action::Key(KeyPress { code: KeyCode::Enter, ctrl: false });
            let s1 = s.step(enter).0;
            let (s2, f) = s1.step(enter);
            s2.config == s.config && f == Some(FollowUp::SaveConfig) && s2.active_modal == Some(
                ModalKind::Settings,
            ) && !s2.settings_editing
        }),
{
    lemma_player_index(s.installed_players, s.config.player.name);
}

/// Esc, `h` or Left on the detail screen goes back to the search results,
/// forgetting the anime that was open, its episodes and the synopses asked for.
pub proof fn back_from_detail(s: AppView, code: KeyCode)
    requires
        !s.show_help,
        s.screen == Screen::Detail,
        s.active_modal is None,
        s.input_mode == InputMode::Normal,
        code == KeyCode::Esc || code == KeyCode::Char('h') || code == KeyCode::Left,
    ensures
        ({
            let (s1, f) = s.step(Action::Key(KeyPress { code, ctrl: false }));
            &&& f is None
            &&& s1.screen == Screen::Search
            &&& s1.selected_anime is None
            &&& s1.episodes.len() == 0
            &&& s1.mal_id is None
            &&& s1.synopsis_requested == Set::<i32>::empty()
            &&& s1.search_results == s.search_results
            &&& s1.selected_result == s.selected_result
        }),
{
}

/// `?` on the search or detail screen shows the key help and changes nothing
/// else; the next key only closes it.
pub proof fn question_mark_shows_help(s: AppView, code: KeyCode)
    requires
        s.active_modal is None,
        s.input_mode == InputMode::Normal,
        s.screen == Screen::Search || s.screen == Screen::Detail,
        !s.show_help,
    ensures
        s.step(Action::Key(KeyPress { code: KeyCode::Char('?'), ctrl: false })) == (
        AppView { show_help: true, ..s }, None::<FollowUp>),
        (AppView { show_help: true, ..s }).step(Action::Key(KeyPress { code, ctrl: false })) == (
        s, None::<FollowUp>),
{
}

/// `/`, like `i`, puts the cursor in the search box on the results screen.
pub proof fn slash_focuses_search(s: AppView)
    requires
        s.active_modal is None,
        s.input_mode == InputMode::Normal,
        s.screen == Screen::Search,
        !s.show_help,
    ensures
        s.step(Action::Key(KeyPress { code: KeyCode::Char('/'), ctrl: false })) == (
        s.focus_search(), None::<FollowUp>),
        s.step(Action::Key(KeyPress { code: KeyCode::Char('i'), ctrl: false })) == (
        s.focus_search(), None::<FollowUp>),
{
}

impl AppView {
    /// An open settings row has its option cursor on one of the row's options.
    pub open spec fn settings_cursor_in_range(self) -> bool {
        self.settings_editing ==> self.settings_option_cursor < self.option_count(self.settings_cursor)
    }

    /// The configured providers and player are among the settings choices:
    /// providers the rows list, and a detected player or the custom one.
    pub open spec fn settings_choices_listed(self) -> bool {
        &&& provider_index(self.config.general.series_provider) < 3
        &&& provider_index(self.config.general.episode_provider) < 3
        &&& provider_index(self.config.general.poster_provider) < 3
        &&& (self.installed_players.contains(self.config.player.name) || self.config.player.name
            == PlayerName::Custom)
    }
}

/// A key handled by the open settings keeps the option cursor on one of the
/// options of its row, and keeps the configured values among the choices,
/// provided the configuration starts with values the rows list (a Kitsu or
/// Notify.moe provider opens its row past the three choices).
pub proof fn settings_key_keeps_cursor_in_range(s: AppView, code: KeyCode)
    requires
        s.wf(),
        s.settings_cursor_in_range(),
        s.settings_choices_listed(),
    ensures
        s.settings_modal_key(code).0.settings_cursor_in_range(),
        s.settings_modal_key(code).0.settings_choices_listed(),
{
    lemma_player_index(s.installed_players, s.config.player.name);
    let o = s.settings_option_cursor;
    if o < s.installed_players.len() {
        assert(s.installed_players.contains(s.installed_players[o as int]));
    }
}

/// While the settings are open, every key keeps the option cursor in range
/// (see `settings_key_keeps_cursor_in_range`).
pub proof fn settings_cursor_stays_in_range(s: AppView, code: KeyCode)
    requires
        s.wf(),
        s.active_modal == Some(ModalKind::Settings),
        !s.show_help,
        s.settings_cursor_in_range(),
        s.settings_choices_listed(),
    ensures
        s.step(Action::Key(KeyPress { code, ctrl: false })).0.settings_cursor_in_range(),
        s.step(Action::Key(KeyPress { code, ctrl: false })).0.settings_choices_listed(),
{
    settings_key_keeps_cursor_in_range(s, code);
}

impl AppView {
    /// The current value of a settings row (or setup step) is among the
    /// row's options: a provider the rows list, a detected player or the
    /// custom one; the other rows always are.
    pub open spec fn current_value_listed(self, row: usize) -> bool {
        if row == 0 {
            provider_index(self.config.general.series_provider) < 3
        } else if row == 1 {
            provider_index(self.config.general.episode_provider) < 3
        } else if row == 2 {
            provider_index(self.config.general.poster_provider) < 3
        } else if row == 3 {
            self.installed_players.contains(self.config.player.name) || self.config.player.name
                == PlayerName::Custom
        } else {
            true
        }
    }
}

/// Applying the option that a row opens on leaves the configuration as it
/// was exactly when the row's current value is among its options; otherwise
/// the value changes (a Kitsu or Notify.moe provider becomes AniDB, an
/// undetected player becomes the custom one).
pub proof fn applying_current_option_keeps_config(s: AppView, row: usize)
    requires
        s.wf(),
    ensures
        (s.apply_option(row, s.current_option_index(row) as usize).config == s.config)
            <==> s.current_value_listed(row),
{
    lemma_player_index(s.installed_players, s.config.player.name);
}

/// In the setup wizard every key keeps the highlighted choice among the
/// choices of the step shown, given that it starts there (the player step
/// counts the players detected when the key is read).
pub proof fn setup_key_keeps_choice_in_range(s: AppView, code: KeyCode)
    requires
        s.wf(),
        s.screen == Screen::Setup,
        s.setup_selected < s.setup_item_count(s.setup_step),
    ensures
        s.setup_key(code).0.screen == Screen::Setup ==> s.setup_key(code).0.setup_selected
            < s.setup_item_count(s.setup_key(code).0.setup_step),
{
}

proof fn lemma_find_detail(ds: Seq<Episode>, n: i64, j: int)
    requires
        0 <= j <= ds.len(),
        forall|k: int| 0 <= k < j ==> !(-10 < (#[trigger] ds[k]).number - n < 10),
    ensures
        j < ds.len() && -10 < ds[j].number - n < 10 ==> find_detail(ds, n) == Some(ds[j]),
        j == ds.len() ==> find_detail(ds, n) is None,
    decreases j,
{
    if j > 0 {
        let t = ds.skip(1);
        assert forall|k: int| 0 <= k < j - 1 implies !(-10 < (#[trigger] t[k]).number - n < 10) by {
            assert(t[k] == ds[k + 1]);
        }
        lemma_find_detail(t, n, j - 1);
        assert(!(-10 < ds[0].number - n < 10));
        if j < ds.len() {
            assert(t[j - 1] == ds[j]);
        }
    }
}

/// When episode details arrive, every episode keeps its place and number.
/// The first detail record numbered within 0.01 of it fills in each of its
/// missing fields (title, synopsis, air date) and marks it filler when the
/// record does; an episode that no record matches stays as it was.
pub proof fn episode_details_fill_missing_fields(s: AppView, details: Vec<Episode>, i: int, j: int)
    requires
        0 <= i < s.episodes.len(),
    ensures
        ({
            let merged = s.step(Action::EpisodeDetailsLoaded(details)).0.episodes;
            let ep = s.episodes[i];
            &&& merged.len() == s.episodes.len()
            &&& merged[i].number == ep.number
            &&& (0 <= j < details@.len() && -10 < details@[j].number - ep.number < 10 && forall|k: int|
                0 <= k < j ==> !(-10 < (#[trigger] details@[k]).number - ep.number < 10)) ==> {
                let d = details@[j];
                &&& merged[i].title == (if ep.title is None { d.title } else { ep.title })
                &&& merged[i].synopsis == (if ep.synopsis is None { d.synopsis } else { ep.synopsis })
                &&& merged[i].aired == (if ep.aired is None { d.aired } else { ep.aired })
                &&& merged[i].is_filler == (ep.is_filler || d.is_filler)
            }
            &&& (forall|k: int|
                0 <= k < details@.len() ==> !(-10 < (#[trigger] details@[k]).number - ep.number < 10))
                ==> merged[i] == ep
        }),
{
    let ep = s.episodes[i];
    if 0 <= j < details@.len() && -10 < details@[j].number - ep.number < 10 && forall|k: int|
        0 <= k < j ==> !(-10 < (#[trigger] details@[k]).number - ep.number < 10) {
        lemma_find_detail(details@, ep.number, j);
    }
    if forall|k: int|
        0 <= k < details@.len() ==> !(-10 < (#[trigger] details@[k]).number - ep.number < 10) {
        lemma_find_detail(details@, ep.number, details@.len() as int);
    }
}

} // verus!
