use ani_tui::number::parse_int;
use ani_tui::session::mal_id_to_fetch;
use ani_tui::model::anime::Anime;
use ani_tui::update::is_confirmation;
use ani_tui::model::anime::Episode;
use ani_tui::session::fetch_next_page;
use ani_tui::api::replace_text;
use ani_tui::app::{index_to_min_quality, index_to_provider, min_quality_to_index, provider_to_index};
use ani_tui::config::{AudioMode, Config, MetadataProvider, MinQuality, PlayerName};
use ani_tui::json::{Json, JsonNumber};
use ani_tui::model::stream::{Quality, StreamUrl};
use ani_tui::number::{format_episode_number, parse_episode_number};
use ani_tui::player::{
    build_quicktime_command, detect_installed, player_command, validate_player, Iina, LaunchError,
    Mpv, PlayOptions, PlayerProbe, Vlc,
};
use ani_tui::poster::{decode_poster, PosterError};
use ani_tui::session::{fuzzy_match, pick_stream, plan_fetched, FetchedPlan};
use ani_tui::ui::{
    audio_mode_options, episode_provider_options, min_quality_options, player_options,
    poster_provider_options, series_provider_options, wrap_text,
};
use ani_tui::update::{check_release, current_target, ReleaseCheck};

fn s(x: &str) -> Json {
    Json::Str(x.to_string())
}

fn obj(fields: Vec<(&str, Json)>) -> Json {
    Json::Object(fields.into_iter().map(|(k, v)| (k.to_string(), v)).collect())
}

fn stream(url: &str, quality: Quality) -> StreamUrl {
    StreamUrl { url: url.to_string(), quality, provider: "p".to_string(), referer: None }
}

fn no_players() -> PlayerProbe {
    PlayerProbe {
        mpv_on_path: false,
        iina_bundle: false,
        iina_on_path: false,
        vlc_on_path: false,
        vlc_bundle: false,
        quicktime_bundle: false,
    }
}

fn opts(referer: Option<&str>) -> PlayOptions {
    PlayOptions {
        url: "https://v/e.m3u8".to_string(),
        title: "Frieren Episode 1".to_string(),
        referer: referer.map(|r| r.to_string()),
        subtitle_path: None,
    }
}

#[test]
fn default_config_values() {
    let config = Config::default();
    assert_eq!(config.general.series_provider, MetadataProvider::Jikan);
    assert_eq!(config.general.episode_provider, MetadataProvider::Jikan);
    assert_eq!(config.general.poster_provider, MetadataProvider::Jikan);
    assert_eq!(config.general.default_mode, AudioMode::Sub);
    assert_eq!(config.general.min_quality, MinQuality::P1080);
    assert_eq!(config.player.name, PlayerName::Mpv);
    assert!(config.player.custom_command.is_none());
    assert!(config.subtitles.enabled);
    assert_eq!(config.subtitles.language, "en");
}

#[test]
fn provider_names() {
    assert_eq!(MetadataProvider::Jikan.as_str(), "jikan");
    assert_eq!(MetadataProvider::Anilist.as_str(), "anilist");
    assert_eq!(MetadataProvider::Anidb.as_str(), "anidb");
    assert_eq!(MetadataProvider::Kitsu.as_str(), "kitsu");
    assert_eq!(MetadataProvider::Notify.as_str(), "notify");
}

#[test]
fn min_quality_accepts() {
    assert!(MinQuality::Any.accepts(Quality::P360));
    assert!(MinQuality::P720.accepts(Quality::P720));
    assert!(MinQuality::P720.accepts(Quality::P1080));
    assert!(!MinQuality::P720.accepts(Quality::P480));
    assert!(MinQuality::P1080.accepts(Quality::Unknown));
    assert!(!MinQuality::P1080.accepts(Quality::P720));
    // monotone on a concrete chain
    assert!(MinQuality::P480.accepts(Quality::P480) && MinQuality::P480.accepts(Quality::P720));
}

#[test]
fn index_round_trips() {
    for p in [MetadataProvider::Jikan, MetadataProvider::Anilist, MetadataProvider::Anidb] {
        assert_eq!(index_to_provider(provider_to_index(p)), p);
    }
    // the settings rows offer three providers; a later index reads as AniDB
    assert_eq!(provider_to_index(MetadataProvider::Kitsu), 3);
    assert_eq!(provider_to_index(MetadataProvider::Notify), 4);
    assert_eq!(index_to_provider(3), MetadataProvider::Anidb);
    assert_eq!(index_to_provider(9), MetadataProvider::Anidb);
    for q in [MinQuality::Any, MinQuality::P360, MinQuality::P480, MinQuality::P720, MinQuality::P1080] {
        assert_eq!(index_to_min_quality(min_quality_to_index(q)), q);
    }
    assert_eq!(min_quality_to_index(MinQuality::P1080), 4);
}

#[test]
fn episode_numbers() {
    assert_eq!(format_episode_number(12000), "12");
    assert_eq!(format_episode_number(12500), "12.5");
    assert_eq!(format_episode_number(12050), "12.05");
    assert_eq!(format_episode_number(-1500), "-1.5");
    assert_eq!(format_episode_number(0), "0");
    assert_eq!(parse_episode_number("12"), Some(12000));
    assert_eq!(parse_episode_number("12.5"), Some(12500));
    assert_eq!(parse_episode_number("-3"), Some(-3000));
    assert_eq!(parse_episode_number("1.23456"), Some(1234));
    assert_eq!(parse_episode_number(".5"), Some(500));
    assert_eq!(parse_episode_number("abc"), None);
    assert_eq!(parse_episode_number(""), None);
    assert_eq!(parse_episode_number("."), None);
    // round trip on a few values
    for n in [1000i64, 2500, 13000, 100250] {
        assert_eq!(parse_episode_number(&format_episode_number(n)), Some(n));
    }
}

#[test]
fn replace_text_replaces_every_occurrence() {
    assert_eq!(replace_text(&"a<br>b<br>c".to_string(), "<br>", "\n"), "a\nb\nc");
    assert_eq!(replace_text(&"aaa".to_string(), "aa", "b"), "ba");
    assert_eq!(replace_text(&"none".to_string(), "x", "y"), "none");
}

#[test]
fn fuzzy_titles() {
    assert!(fuzzy_match("Frieren", "frieren"));
    assert!(fuzzy_match("Sousou no Frieren", "FRIEREN"));
    assert!(fuzzy_match("frieren", "Sousou no Frieren"));
    assert!(!fuzzy_match("Naruto", "Bleach"));
    assert_eq!(fuzzy_match("One Piece", "piece"), fuzzy_match("piece", "One Piece"));
}

#[test]
fn pick_stream_prefers_best_acceptable() {
    let streams = vec![
        stream("a", Quality::P480),
        stream("b", Quality::P1080),
        stream("c", Quality::P720),
    ];
    assert_eq!(pick_stream(&streams, MinQuality::P720), Some(1));
    assert_eq!(pick_stream(&streams, MinQuality::Any), Some(1));
    // none meets the minimum: the best of all
    let low = vec![stream("a", Quality::P360), stream("b", Quality::P480)];
    assert_eq!(pick_stream(&low, MinQuality::P1080), Some(1));
    assert_eq!(pick_stream(&Vec::new(), MinQuality::Any), None);
    // a stream without a resolution always passes the minimum
    let unknown = vec![stream("a", Quality::P360), stream("b", Quality::Unknown)];
    assert_eq!(pick_stream(&unknown, MinQuality::P1080), Some(1));
    let mixed = vec![stream("a", Quality::Unknown), stream("b", Quality::P1080)];
    assert_eq!(pick_stream(&mixed, MinQuality::P1080), Some(1));
    // equal qualities: the one listed first
    let ties = vec![stream("a", Quality::P720), stream("b", Quality::P1080), stream("c", Quality::P1080)];
    assert_eq!(pick_stream(&ties, MinQuality::P480), Some(1));
}

#[test]
fn plan_fetched_outcomes() {
    let title = "Frieren".to_string();
    let ep = "3".to_string();
    match plan_fetched(Vec::new(), MinQuality::Any, &title, &ep) {
        FetchedPlan::NoStreams => {}
        _ => panic!("expected no streams"),
    }
    let streams = vec![stream("a", Quality::P480), stream("b", Quality::P1080)];
    match plan_fetched(streams, MinQuality::P720, &title, &ep) {
        FetchedPlan::Play { options, streams } => {
            assert_eq!(options.url, "b");
            assert_eq!(options.title, "Frieren Episode 3");
            assert!(options.subtitle_path.is_none());
            assert_eq!(streams.len(), 2);
        }
        _ => panic!("expected a stream to play"),
    }
}

#[test]
fn players_detected_in_order() {
    assert!(detect_installed(&no_players()).is_empty());
    let probe = PlayerProbe { mpv_on_path: true, vlc_bundle: true, quicktime_bundle: true, ..no_players() };
    assert_eq!(detect_installed(&probe), vec![PlayerName::Mpv, PlayerName::Vlc, PlayerName::Quicktime]);
    let iina = PlayerProbe { iina_on_path: true, ..no_players() };
    assert_eq!(detect_installed(&iina), vec![PlayerName::Iina]);
}

#[test]
fn players_validated() {
    let probe = PlayerProbe { mpv_on_path: true, ..no_players() };
    assert!(validate_player(PlayerName::Mpv, None, false, &probe));
    assert!(!validate_player(PlayerName::Vlc, None, false, &probe));
    assert!(validate_player(PlayerName::Custom, Some("myplayer"), true, &probe));
    assert!(!validate_player(PlayerName::Custom, Some("myplayer"), false, &probe));
    assert!(!validate_player(PlayerName::Custom, None, true, &probe));
}

#[test]
fn player_command_lines() {
    let mpv = Mpv.build_command(&opts(Some("https://ref/")));
    assert_eq!(mpv.program, "mpv");
    assert_eq!(
        mpv.args,
        vec!["https://v/e.m3u8", "--force-media-title=Frieren Episode 1", "--referrer=https://ref/"]
    );
    let iina = Iina.build_command(&opts(None), true);
    assert_eq!(iina.program, "/Applications/IINA.app/Contents/MacOS/iina-cli");
    assert_eq!(
        iina.args,
        vec!["https://v/e.m3u8", "--no-stdin", "--keep-running", "--mpv-force-media-title=Frieren Episode 1"]
    );
    assert_eq!(Iina.build_command(&opts(None), false).program, "iina");
    let vlc = Vlc.build_command(&opts(Some("r")), false);
    assert_eq!(vlc.program, "vlc");
    assert_eq!(
        vlc.args,
        vec!["https://v/e.m3u8", "--play-and-exit", "--meta-title=Frieren Episode 1", "--http-referrer=r"]
    );
    let qt = build_quicktime_command(&opts(None));
    assert_eq!(qt.program, "open");
    assert_eq!(qt.args, vec!["-a", "QuickTime Player", "https://v/e.m3u8"]);
    let custom = player_command(PlayerName::Custom, Some("myplayer"), &opts(None), false, false).unwrap();
    assert_eq!(custom.program, "myplayer");
    assert_eq!(custom.args, vec!["https://v/e.m3u8"]);
    assert_eq!(
        player_command(PlayerName::Custom, None, &opts(None), false, false).err(),
        Some(LaunchError::NoCustomCommand)
    );
    assert_eq!(player_command(PlayerName::Vlc, None, &opts(None), false, true).unwrap().program, "/Applications/VLC.app/Contents/MacOS/VLC");
}

#[test]
fn wrap_text_breaks_at_words() {
    assert_eq!(wrap_text("the quick brown fox", 10), vec!["the quick", "brown fox"]);
    assert_eq!(wrap_text("  spaced   out  ", 20), vec!["spaced out"]);
    assert_eq!(wrap_text("supercalifragilistic word", 5), vec!["supercalifragilistic", "word"]);
    assert_eq!(wrap_text("", 10), vec![""]);
    assert_eq!(wrap_text("keep as is", 0), vec!["keep as is"]);
    assert_eq!(wrap_text("a b c", 3), vec!["a b", "c"]);
}

#[test]
fn option_lists() {
    let (series, title) = series_provider_options();
    assert_eq!(series.len(), 5);
    assert_eq!(series[0].0, "Jikan (MAL)");
    assert_eq!(title, "Series details provider (ratings, genres, etc.)");
    assert_eq!(episode_provider_options().0[4].1, "No episode details available");
    assert_eq!(poster_provider_options().0[1].1, "High-quality cover art");
    let (players, title) = player_options(&vec![PlayerName::Mpv, PlayerName::Quicktime]);
    let names: Vec<&str> = players.iter().map(|p| p.0).collect();
    assert_eq!(names, vec!["mpv", "QuickTime", "Custom"]);
    assert_eq!(title, "Choose your video player");
    assert_eq!(audio_mode_options().0[1].0, "Dub");
    assert_eq!(min_quality_options().0[4], ("1080p", "Full HD (recommended)"));
}

#[test]
fn release_targets() {
    assert_eq!(current_target("linux", "x86_64"), Some("x86_64-unknown-linux-gnu"));
    assert_eq!(current_target("macos", "aarch64"), Some("aarch64-apple-darwin"));
    assert_eq!(current_target("windows", "x86_64"), Some("x86_64-pc-windows-msvc"));
    assert_eq!(current_target("linux", "riscv64"), None);
}

#[test]
fn release_checks() {
    let release = obj(vec![
        ("tag_name", s("v1.2.0")),
        (
            "assets",
            Json::Array(vec![
                obj(vec![("name", s("ani-tui-aarch64-apple-darwin.tar.gz")), ("browser_download_url", s("https://dl/mac"))]),
                obj(vec![("name", s("ani-tui-x86_64-unknown-linux-gnu.tar.gz")), ("browser_download_url", s("https://dl/linux"))]),
                obj(vec![("name", s("ani-tui-x86_64-pc-windows-msvc.zip"))]),
            ]),
        ),
    ]);
    assert!(matches!(check_release(&release, "x86_64-unknown-linux-gnu", "1.2.0"), ReleaseCheck::UpToDate));
    match check_release(&release, "x86_64-unknown-linux-gnu", "1.1.0") {
        ReleaseCheck::Download { version, url } => {
            assert_eq!(version, "1.2.0");
            assert_eq!(url, "https://dl/linux");
        }
        _ => panic!("expected a download"),
    }
    assert!(matches!(check_release(&release, "x86_64-pc-windows-msvc", "1.1.0"), ReleaseCheck::MissingUrl));
    assert!(matches!(check_release(&release, "riscv", "1.1.0"), ReleaseCheck::NoAssetFor));
    let bare = obj(vec![("tag_name", s("2.0"))]);
    assert!(matches!(check_release(&bare, "x", "1.0"), ReleaseCheck::NoAssets));
    assert!(matches!(check_release(&Json::Null, "x", "unknown"), ReleaseCheck::UpToDate));
    let _ = JsonNumber::PosInt(0);
}

#[test]
fn poster_decoding() {
    assert!(matches!(decode_poster(b"not an image"), Err(PosterError::Undecodable)));
    assert!(matches!(decode_poster(&[]), Err(PosterError::Undecodable)));
    let img = image::RgbImage::new(2, 3);
    let mut bytes: Vec<u8> = Vec::new();
    image::DynamicImage::ImageRgb8(img)
        .write_to(&mut std::io::Cursor::new(&mut bytes), image::ImageFormat::Png)
        .unwrap();
    let decoded = decode_poster(&bytes).unwrap_or_else(|_| panic!("a PNG decodes"));
    assert_eq!((decoded.width, decoded.height), (2, 3));
    assert_eq!((decoded.image.width(), decoded.image.height()), (2, 3));
}

#[test]
fn wrapping_keeps_every_word() {
    let text = "  a  frieren is  an elf-mage whose adventures never\tend  ";
    for width in [0usize, 1, 4, 10, 80] {
        let lines = wrap_text(text, width);
        let rejoined: Vec<String> = lines.iter().flat_map(|l| l.split_whitespace().map(|w| w.to_string())).collect();
        let words: Vec<String> = text.split_whitespace().map(|w| w.to_string()).collect();
        assert_eq!(rejoined, words);
    }
}

#[test]
fn episode_numbers_read_back() {
    for n in [-2500i64, -1000, 0, 1, 999, 1000, 1001, 1010, 1100, 12_500, 2_147_483_647_000, -2_147_483_648_000] {
        assert_eq!(parse_episode_number(&format_episode_number(n)), Some(n));
    }
    // beyond the i32 range whole numbers are written clamped
    assert_eq!(format_episode_number(3_000_000_000_000), "2147483647");
}

#[test]
fn episode_numbers_in_float_forms() {
    assert_eq!(parse_episode_number("1e2"), Some(100_000));
    assert_eq!(parse_episode_number("2.5E+1"), Some(25_000));
    assert_eq!(parse_episode_number("1e-2"), Some(10));
    assert_eq!(parse_episode_number("1.e3"), Some(1_000_000));
    assert_eq!(parse_episode_number("+7"), Some(7000));
    assert_eq!(parse_episode_number("inf"), Some(i64::MAX));
    assert_eq!(parse_episode_number("-Infinity"), Some(i64::MIN));
    assert_eq!(parse_episode_number("1e400"), Some(i64::MAX));
    assert_eq!(parse_episode_number("0e99999999999999999999999"), Some(0));
    assert_eq!(parse_episode_number("5e-99999999999999999999999"), Some(0));
    assert_eq!(parse_episode_number("99999999999999999999"), Some(i64::MAX));
    assert_eq!(parse_episode_number("nan"), None);
    assert_eq!(parse_episode_number("1e"), None);
    assert_eq!(parse_episode_number("e5"), None);
    assert_eq!(parse_episode_number("infinit"), None);
}

#[test]
fn uninstall_confirmation() {
    assert!(is_confirmation("y\n"));
    assert!(is_confirmation("  Y "));
    assert!(!is_confirmation("yes\n"));
    assert!(!is_confirmation("\n"));
    assert!(!is_confirmation("n"));
    assert!(!is_confirmation("y y"));
}

#[test]
fn paging_stops_on_empty_or_last_page() {
    let ep = Episode { number: 1000, title: None, synopsis: None, is_filler: false, aired: None };
    assert!(fetch_next_page(&vec![ep], true));
    assert!(!fetch_next_page(&Vec::new(), true));
    let ep = Episode { number: 1000, title: None, synopsis: None, is_filler: false, aired: None };
    assert!(!fetch_next_page(&vec![ep], false));
}

#[test]
fn integers_read_like_str_parse() {
    assert_eq!(parse_int("52991"), Some(52991));
    assert_eq!(parse_int("+7"), Some(7));
    assert_eq!(parse_int("-9223372036854775808"), Some(i64::MIN));
    assert_eq!(parse_int("9223372036854775808"), None);
    assert_eq!(parse_int("12.0"), None);
    assert_eq!(parse_int("-"), None);
    assert_eq!(parse_int(""), None);
}

#[test]
fn mal_id_comes_from_the_first_jikan_result() {
    let hit = |id: &str| Anime {
        id: id.to_string(),
        title: "t".to_string(),
        synopsis: None,
        poster_url: None,
        episode_count: None,
        genres: Vec::new(),
        rating: None,
    };
    assert_eq!(mal_id_to_fetch(MetadataProvider::Jikan, &vec![hit("52991"), hit("1")]), Some(52991));
    assert_eq!(mal_id_to_fetch(MetadataProvider::Jikan, &vec![hit("abc"), hit("1")]), None);
    assert_eq!(mal_id_to_fetch(MetadataProvider::Jikan, &Vec::new()), None);
    assert_eq!(mal_id_to_fetch(MetadataProvider::Anilist, &vec![hit("52991")]), None);
}
