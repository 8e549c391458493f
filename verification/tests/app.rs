use ani_tui::action::{Action, KeyCode, KeyPress};
use ani_tui::app::App;
use ani_tui::app_model::{ModalKind, Screen, InputMode};
use ani_tui::config::{AudioMode, Config, MetadataProvider, MinQuality, PlayerName};
use ani_tui::model::anime::{Anime, Episode};
use ani_tui::model::stream::{Quality, StreamUrl};
use ani_tui::session::{plan_episode, streams_to_fetch, EpisodePlan, enrich_results};

fn key(code: KeyCode) -> Action {
    Action::Key(KeyPress { code, ctrl: false })
}

fn anime(id: &str, title: &str) -> Anime {
    Anime {
        id: id.to_string(),
        title: title.to_string(),
        synopsis: None,
        poster_url: Some(format!("https://img/{id}.jpg")),
        episode_count: None,
        genres: Vec::new(),
        rating: None,
    }
}

fn episode(number: i64) -> Episode {
    Episode { number, title: None, synopsis: None, is_filler: false, aired: None }
}

fn stream(url: &str, quality: Quality) -> StreamUrl {
    StreamUrl { url: url.to_string(), quality, provider: "p".to_string(), referer: None }
}

fn search_app() -> App {
    App::new(Config::default(), false, true, vec![PlayerName::Mpv, PlayerName::Vlc])
}

#[test]
fn new_app_screens() {
    let app = search_app();
    assert_eq!(app.screen, Screen::Search);
    assert_eq!(app.input_mode, InputMode::Editing);
    let setup = App::new(Config::default(), true, false, Vec::new());
    assert_eq!(setup.screen, Screen::Setup);
    assert_eq!(setup.input_mode, InputMode::Normal);
    assert_eq!(setup.mode_str(), "sub");
}

#[test]
fn ctrl_c_quits_everywhere() {
    let mut app = search_app();
    let r = app.handle_action(Action::Key(KeyPress { code: KeyCode::Char('c'), ctrl: true }));
    assert!(r.is_none());
    assert!(app.should_quit);
    let mut setup = App::new(Config::default(), true, false, Vec::new());
    setup.handle_action(Action::Key(KeyPress { code: KeyCode::Char('c'), ctrl: true }));
    assert!(setup.should_quit);
}

#[test]
fn typing_and_searching() {
    let mut app = search_app();
    for c in "frieren".chars() {
        assert!(app.handle_action(key(KeyCode::Char(c))).is_none());
    }
    assert_eq!(app.search_input.iter().collect::<String>(), "frieren");
    assert_eq!(app.cursor_position, 7);
    app.handle_action(key(KeyCode::Left));
    app.handle_action(key(KeyCode::Backspace));
    assert_eq!(app.search_input.iter().collect::<String>(), "friern");
    assert_eq!(app.cursor_position, 5);
    match app.handle_action(key(KeyCode::Enter)) {
        Some(Action::Search(q)) => assert_eq!(q, "friern"),
        _ => panic!("expected a search"),
    }
    assert_eq!(app.input_mode, InputMode::Normal);
}

#[test]
fn search_results_ask_for_poster_once() {
    let mut app = search_app();
    let r = app.handle_action(Action::SearchResults(vec![anime("a1", "A"), anime("b2", "B")]));
    match r {
        Some(Action::LoadPoster(id, url)) => {
            assert_eq!(id, "a1");
            assert_eq!(url, "https://img/a1.jpg");
        }
        _ => panic!("expected a poster request"),
    }
    assert_eq!(app.poster_loading.as_deref(), Some("a1"));
    assert!(app.handle_action(Action::PosterLoaded("a1".to_string(), 300, 450)).is_none());
    assert!(app.has_poster(&"a1".to_string()));
    assert!(app.poster_loading.is_none());
    // moving down asks for the next poster, moving back up asks for nothing
    assert!(matches!(app.handle_action(key(KeyCode::Char('j'))), Some(Action::LoadPoster(_, _))));
    assert_eq!(app.selected_result, 1);
    assert!(app.handle_action(key(KeyCode::Char('k'))).is_none());
    assert!(matches!(app.handle_action(key(KeyCode::Enter)), Some(Action::SelectAnime(0))));
}

#[test]
fn esc_with_no_results_quits() {
    let mut app = search_app();
    app.handle_action(key(KeyCode::Esc));
    assert!(app.should_quit);
}

#[test]
fn detail_flow_and_stream_cache() {
    let mut app = search_app();
    app.handle_action(Action::SearchResults(vec![anime("a1", "Frieren")]));
    app.handle_action(Action::AnimeDetail(Box::new(anime("a1", "Frieren"))));
    assert_eq!(app.screen, Screen::Detail);
    match app.handle_action(Action::EpisodesLoaded(vec![episode(1000), episode(2000), episode(2500)])) {
        Some(Action::PrefetchAllStreams(id, eps, mode)) => {
            assert_eq!(id, "a1");
            assert_eq!(eps, vec!["1", "2", "2.5"]);
            assert_eq!(mode, "sub");
        }
        _ => panic!("expected prefetching"),
    }
    app.handle_action(Action::StreamsPrefetched(
        "2".to_string(),
        vec![stream("low", Quality::P480), stream("high", Quality::P1080)],
    ));
    assert!(app.has_cached_streams(&"2".to_string()));
    let wanted = streams_to_fetch(&app, &vec!["1".to_string(), "2".to_string(), "2.5".to_string()]);
    assert_eq!(wanted, vec!["1", "2.5"]);
    match plan_episode(&mut app, 1) {
        EpisodePlan::Play { options, streams } => {
            assert_eq!(options.url, "high");
            assert_eq!(options.title, "Frieren Episode 2");
            assert_eq!(streams.len(), 2);
        }
        _ => panic!("expected a cached stream"),
    }
    assert!(!app.has_cached_streams(&"2".to_string()));
    match plan_episode(&mut app, 2) {
        EpisodePlan::Fetch { show_id, episode, mode, title, loading } => {
            assert_eq!(show_id, "a1");
            assert_eq!(episode, "2.5");
            assert_eq!(mode, "sub");
            assert_eq!(title, "Frieren");
            assert_eq!(loading, "Frieren — Episode 2.5");
        }
        _ => panic!("expected a fetch"),
    }
    assert!(matches!(plan_episode(&mut app, 9), EpisodePlan::Nothing));
    app.handle_action(key(KeyCode::Esc));
    assert_eq!(app.screen, Screen::Search);
    assert!(app.selected_anime.is_none());
}

#[test]
fn cached_streams_below_minimum() {
    let mut config = Config::default();
    config.general.min_quality = MinQuality::P1080;
    let mut app = App::new(config, false, true, Vec::new());
    app.handle_action(Action::AnimeDetail(Box::new(anime("a1", "Frieren"))));
    app.handle_action(Action::EpisodesLoaded(vec![episode(1000)]));
    app.handle_action(Action::StreamsPrefetched("1".to_string(), vec![stream("low", Quality::P480)]));
    match plan_episode(&mut app, 0) {
        EpisodePlan::Play { options, .. } => assert_eq!(options.url, "low"),
        _ => panic!("the first stream is played when none meets the minimum"),
    }
}

#[test]
fn synopsis_requested_once_per_episode() {
    let mut app = search_app();
    app.handle_action(Action::SearchResults(vec![anime("a1", "Frieren")]));
    assert_eq!(app.input_mode, InputMode::Normal);
    app.handle_action(Action::AnimeDetail(Box::new(anime("a1", "Frieren"))));
    app.handle_action(Action::EpisodesLoaded(vec![episode(1000), episode(2000)]));
    assert!(matches!(app.handle_action(Action::SetMalId(52991)), Some(Action::FetchEpisodeSynopsis(52991, 1))));
    assert!(matches!(app.handle_action(key(KeyCode::Char('j'))), Some(Action::FetchEpisodeSynopsis(52991, 2))));
    // back up: episode 1 was already requested, so its streams are prefetched instead
    assert!(matches!(app.handle_action(key(KeyCode::Char('k'))), Some(Action::PrefetchStreams(_, _, _))));
    assert!(app.handle_action(Action::EpisodeSynopsisLoaded(2000, "Second.".to_string())).is_none());
    assert_eq!(app.episodes[1].synopsis.as_deref(), Some("Second."));
}

#[test]
fn episode_details_merge() {
    let mut app = search_app();
    app.handle_action(Action::AnimeDetail(Box::new(anime("a1", "Frieren"))));
    app.handle_action(Action::EpisodesLoaded(vec![episode(1000), episode(2000)]));
    let mut detail = episode(2000);
    detail.title = Some("Two".to_string());
    detail.is_filler = true;
    app.handle_action(Action::EpisodeDetailsLoaded(vec![detail]));
    assert_eq!(app.episodes[1].title.as_deref(), Some("Two"));
    assert!(app.episodes[1].is_filler);
    assert!(app.episodes[0].title.is_none());
}

#[test]
fn settings_modal_changes_config() {
    let mut app = search_app();
    app.handle_action(key(KeyCode::Tab));
    assert_eq!(app.active_modal, Some(ModalKind::Settings));
    // row 0: series provider; pick the second option (AniList)
    app.handle_action(key(KeyCode::Enter));
    assert!(app.settings_editing);
    assert_eq!(app.settings_option_cursor, 0);
    app.handle_action(key(KeyCode::Down));
    assert!(matches!(app.handle_action(key(KeyCode::Enter)), Some(Action::SaveConfig)));
    assert_eq!(app.config.general.series_provider, MetadataProvider::Anilist);
    // row 4: audio mode
    for _ in 0..4 {
        app.handle_action(key(KeyCode::Char('j')));
    }
    assert_eq!(app.settings_cursor, 4);
    app.handle_action(key(KeyCode::Enter));
    app.handle_action(key(KeyCode::Char('j')));
    app.handle_action(key(KeyCode::Enter));
    assert_eq!(app.config.general.default_mode, AudioMode::Dub);
    assert_eq!(app.mode_str(), "dub");
    app.handle_action(key(KeyCode::Esc));
    assert!(app.active_modal.is_none());
}

#[test]
fn setup_wizard_completes() {
    let mut app = App::new(Config::default(), true, false, vec![PlayerName::Mpv]);
    // first step: the series provider; take the second choice
    app.handle_action(key(KeyCode::Down));
    assert_eq!(app.setup_selected, 1);
    assert!(app.handle_action(key(KeyCode::Enter)).is_none());
    assert_eq!(app.setup_step, 1);
    assert_eq!(app.config.general.series_provider, MetadataProvider::Anilist);
    app.handle_action(key(KeyCode::Esc));
    assert_eq!(app.setup_step, 0);
    for _ in 0..5 {
        assert!(app.handle_action(key(KeyCode::Enter)).is_none());
    }
    assert_eq!(app.setup_step, 5);
    assert!(matches!(app.handle_action(key(KeyCode::Enter)), Some(Action::SaveConfig)));
    assert_eq!(app.screen, Screen::Search);
    assert_eq!(app.config.general.series_provider, MetadataProvider::Jikan);
    assert_eq!(app.config.player.name, PlayerName::Mpv);
    assert_eq!(app.config.general.min_quality, MinQuality::Any);
}

#[test]
fn player_modal_navigation() {
    let mut app = search_app();
    app.handle_action(Action::AnimeDetail(Box::new(anime("a1", "Frieren"))));
    app.handle_action(Action::EpisodesLoaded(vec![episode(1000), episode(2000)]));
    app.handle_action(Action::PlayLoading("Frieren — Episode 1".to_string()));
    assert_eq!(app.active_modal, Some(ModalKind::Player));
    assert!(matches!(app.handle_action(key(KeyCode::Char('n'))), Some(Action::SelectEpisode(1))));
    assert!(app.handle_action(key(KeyCode::Char('n'))).is_none());
    assert!(matches!(app.handle_action(key(KeyCode::Char('p'))), Some(Action::SelectEpisode(0))));
    app.handle_action(Action::PlayError("no streams".to_string()));
    assert_eq!(app.play_error.as_deref(), Some("no streams"));
    app.handle_action(key(KeyCode::Esc));
    assert!(app.active_modal.is_none());
    assert!(app.play_error.is_none());
}

#[test]
fn enrich_copies_matching_metadata() {
    let mut results = vec![anime("x", "Frieren"), anime("y", "Unrelated")];
    let mut meta = anime("52991", "Sousou no Frieren");
    meta.synopsis = Some("Elf.".to_string());
    meta.genres = vec!["Fantasy".to_string()];
    meta.rating = Some(9310);
    enrich_results(&mut results, &vec![meta]);
    assert_eq!(results[0].id, "x");
    assert_eq!(results[0].synopsis.as_deref(), Some("Elf."));
    assert_eq!(results[0].genres, vec!["Fantasy".to_string()]);
    assert_eq!(results[0].rating, Some(9310));
    assert!(results[1].synopsis.is_none());
}

#[test]
fn backspace_after_typing_restores_text() {
    let mut app = search_app();
    for c in "naruto".chars() {
        app.handle_action(key(KeyCode::Char(c)));
    }
    app.handle_action(key(KeyCode::Left));
    app.handle_action(key(KeyCode::Left));
    let before: String = app.search_input.iter().collect();
    let cursor = app.cursor_position;
    app.handle_action(key(KeyCode::Char('x')));
    assert_eq!(app.search_input.iter().collect::<String>(), "naruxto");
    app.handle_action(key(KeyCode::Backspace));
    assert_eq!(app.search_input.iter().collect::<String>(), before);
    assert_eq!(app.cursor_position, cursor);
}

#[test]
fn confirming_current_setting_keeps_config() {
    let mut config = Config::default();
    config.general.episode_provider = MetadataProvider::Anidb;
    config.player.name = PlayerName::Vlc;
    let mut app = App::new(config, false, true, vec![PlayerName::Mpv, PlayerName::Vlc]);
    app.handle_action(key(KeyCode::Tab));
    for row in 0..6 {
        assert_eq!(app.settings_cursor, row);
        app.handle_action(key(KeyCode::Enter));
        assert!(matches!(app.handle_action(key(KeyCode::Enter)), Some(Action::SaveConfig)));
        app.handle_action(key(KeyCode::Down));
    }
    assert_eq!(app.config.general.series_provider, MetadataProvider::Jikan);
    assert_eq!(app.config.general.episode_provider, MetadataProvider::Anidb);
    assert_eq!(app.config.player.name, PlayerName::Vlc);
    assert_eq!(app.config.general.default_mode, AudioMode::Sub);
    assert_eq!(app.config.general.min_quality, MinQuality::P1080);
}

#[test]
fn ctrl_c_quits_inside_a_modal() {
    let mut app = search_app();
    app.handle_action(key(KeyCode::Tab));
    assert_eq!(app.active_modal, Some(ModalKind::Settings));
    app.handle_action(Action::Key(KeyPress { code: KeyCode::Char('c'), ctrl: true }));
    assert!(app.should_quit);
}

#[test]
fn kitsu_provider_is_not_a_settings_choice() {
    // the provider rows offer three choices; confirming a Kitsu row stores AniDB
    let mut config = Config::default();
    config.general.series_provider = MetadataProvider::Kitsu;
    let mut app = App::new(config, false, true, Vec::new());
    app.handle_action(key(KeyCode::Tab));
    app.handle_action(key(KeyCode::Enter));
    assert_eq!(app.settings_option_cursor, 3);
    app.handle_action(key(KeyCode::Enter));
    assert_eq!(app.config.general.series_provider, MetadataProvider::Anidb);
}

#[test]
fn slash_and_i_focus_the_search_input() {
    let mut app = search_app();
    app.handle_action(Action::SearchResults(vec![anime("a1", "A")]));
    assert_eq!(app.input_mode, InputMode::Normal);
    assert!(app.handle_action(key(KeyCode::Char('/'))).is_none());
    assert_eq!(app.active_modal, Some(ModalKind::Search));
    assert_eq!(app.input_mode, InputMode::Editing);
    app.handle_action(key(KeyCode::Esc));
    assert!(app.active_modal.is_none());
    app.handle_action(key(KeyCode::Char('i')));
    assert_eq!(app.active_modal, Some(ModalKind::Search));
    app.handle_action(key(KeyCode::Esc));
    // Tab opens the settings from the results
    app.handle_action(key(KeyCode::Tab));
    assert_eq!(app.active_modal, Some(ModalKind::Settings));
}

#[test]
fn slash_on_detail_returns_to_search_input() {
    let mut app = search_app();
    app.handle_action(Action::SearchResults(vec![anime("a1", "A")]));
    app.handle_action(Action::AnimeDetail(Box::new(anime("a1", "A"))));
    app.handle_action(key(KeyCode::Char('/')));
    assert_eq!(app.screen, Screen::Search);
    assert_eq!(app.active_modal, Some(ModalKind::Search));
    assert_eq!(app.input_mode, InputMode::Editing);
}

#[test]
fn question_mark_shows_help_until_a_key() {
    let mut app = search_app();
    app.handle_action(Action::SearchResults(vec![anime("a1", "A"), anime("b2", "B")]));
    let selected = app.selected_result;
    assert!(app.handle_action(key(KeyCode::Char('?'))).is_none());
    assert!(app.show_help);
    assert_eq!(app.selected_result, selected);
    assert_eq!(app.screen, Screen::Search);
    // the next key closes the help and does nothing else
    assert!(app.handle_action(key(KeyCode::Char('j'))).is_none());
    assert!(!app.show_help);
    assert_eq!(app.selected_result, selected);
}

#[test]
fn setup_offers_the_players_detected_now() {
    let mut app = App::new(Config::default(), true, false, vec![PlayerName::Mpv]);
    for _ in 0..3 {
        app.handle_action(key(KeyCode::Enter));
    }
    assert_eq!(app.setup_step, 3);
    // VLC shows up before the player step is answered
    app.set_installed_players(vec![PlayerName::Mpv, PlayerName::Vlc]);
    app.handle_action(key(KeyCode::Down));
    app.handle_action(key(KeyCode::Enter));
    assert_eq!(app.config.player.name, PlayerName::Vlc);
    assert_eq!(app.installed_players, vec![PlayerName::Mpv, PlayerName::Vlc]);
}
