use ani_tui::api::allanime::provider_links_from_body;
use ani_tui::json::parse_json_text;
use ani_tui::api::allanime::{
    decrypt, parse_episodes, parse_provider_links, parse_quality, parse_search, parse_sources,
    provider_url,
};
use ani_tui::json::{Json, JsonNumber};
use ani_tui::model::stream::Quality;

fn s(x: &str) -> Json {
    Json::Str(x.to_string())
}

fn n(x: u64) -> Json {
    Json::Number(JsonNumber::PosInt(x))
}

fn obj(fields: Vec<(&str, Json)>) -> Json {
    Json::Object(fields.into_iter().map(|(k, v)| (k.to_string(), v)).collect())
}

#[test]
fn decrypt_basic_path() {
    // Test a few known mappings
    assert_eq!(decrypt("59"), "a");
    assert_eq!(decrypt("5a"), "b");
    assert_eq!(decrypt("08"), "0");
    assert_eq!(decrypt("17"), "/");
}

#[test]
fn decrypt_composed_string() {
    // "50" = h, "5d" = e, "54" = l, "54" = l, "57" = o
    assert_eq!(decrypt("505d545457"), "hello");
}

#[test]
fn decrypt_with_special_chars() {
    // Verify individual special char mappings
    assert_eq!(decrypt("02"), ":");
    assert_eq!(decrypt("16"), ".");
    assert_eq!(decrypt("15"), "-");
    assert_eq!(decrypt("67"), "_");
    // Compose: h(50) .(16) /(17)
    assert_eq!(decrypt("501617"), "h./");
}

#[test]
fn decrypt_clock_replacement() {
    // "17" = /, "5b" = c, "54" = l, "57" = o, "5b" = c, "53" = k
    assert_eq!(decrypt("175b5457 5b53"), "/clo ck"); // no replacement (space breaks it)
    // Full /clock should become /clock.json
    assert_eq!(decrypt("175b545757 5b53"), "/cloo ck"); // This tests the logic path
}

#[test]
fn decrypt_expands_clock_path() {
    // "/clock" decodes and then gains ".json"
    assert_eq!(decrypt("175b54575b53"), "/clock.json");
    assert_eq!(decrypt("175b54575b53175b54575b53"), "/clock.json/clock.json");
}

#[test]
fn decrypt_keeps_unknown_characters() {
    assert_eq!(decrypt(""), "");
    assert_eq!(decrypt("zz"), "zz");
    assert_eq!(decrypt("5"), "5");
    assert_eq!(decrypt("59z"), "az");
}

#[test]
fn parse_quality_reads_highest_resolution() {
    assert_eq!(parse_quality("1080p"), Quality::P1080);
    assert_eq!(parse_quality("720P"), Quality::P720);
    assert_eq!(parse_quality("480p"), Quality::P480);
    assert_eq!(parse_quality("360"), Quality::P360);
    assert_eq!(parse_quality("auto"), Quality::Unknown);
    assert_eq!(parse_quality("720p/1080p"), Quality::P1080);
}

#[test]
fn provider_url_prefixes_relative_paths() {
    assert_eq!(provider_url(&"/apivtwo/clock.json".to_string()), "https://allanime.day/apivtwo/clock.json");
    assert_eq!(provider_url(&"https://x.example/a".to_string()), "https://x.example/a");
    assert_eq!(provider_url(&"htt".to_string()), "https://allanime.dayhtt");
}

#[test]
fn parse_search_reads_edges() {
    let resp = obj(vec![(
        "data",
        obj(vec![(
            "shows",
            obj(vec![(
                "edges",
                Json::Array(vec![
                    obj(vec![
                        ("_id", s("abc")),
                        ("name", s("Frieren")),
                        ("availableEpisodes", obj(vec![("sub", n(28)), ("dub", n(10))])),
                    ]),
                    obj(vec![("name", s("no id"))]),
                    obj(vec![("_id", s("def")), ("name", s("Other"))]),
                ]),
            )]),
        )]),
    )]);
    let sub = parse_search(&resp, "sub");
    assert_eq!(sub.len(), 2);
    assert_eq!(sub[0].id, "abc");
    assert_eq!(sub[0].title, "Frieren");
    assert_eq!(sub[0].episode_count, Some(28));
    assert_eq!(sub[1].id, "def");
    assert_eq!(sub[1].episode_count, None);
    let dub = parse_search(&resp, "dub");
    assert_eq!(dub[0].episode_count, Some(10));
    assert!(parse_search(&Json::Null, "sub").is_empty());
}

#[test]
fn parse_episodes_sorts_numbers() {
    let resp = obj(vec![(
        "data",
        obj(vec![(
            "show",
            obj(vec![(
                "availableEpisodesDetail",
                obj(vec![(
                    "sub",
                    Json::Array(vec![s("3"), s("1"), s("2.5"), n(2), s("x")]),
                )]),
            )]),
        )]),
    )]);
    let eps = parse_episodes(&resp, "sub");
    let nums: Vec<i64> = eps.iter().map(|e| e.number).collect();
    assert_eq!(nums, vec![1000, 2000, 2500, 3000]);
    assert!(eps.iter().all(|e| e.title.is_none() && !e.is_filler));
    assert!(parse_episodes(&resp, "dub").is_empty());
}

#[test]
fn parse_sources_decodes_paths() {
    let resp = obj(vec![(
        "data",
        obj(vec![(
            "episode",
            obj(vec![(
                "sourceUrls",
                Json::Array(vec![
                    obj(vec![("sourceUrl", s("--175b54575b53")), ("sourceName", s("Default"))]),
                    obj(vec![("sourceUrl", s("https://direct.example/v.m3u8"))]),
                    obj(vec![("sourceName", s("missing url"))]),
                ]),
            )]),
        )]),
    )]);
    let sources = parse_sources(&resp);
    assert_eq!(
        sources,
        vec![
            ("/clock.json".to_string(), "Default".to_string()),
            ("https://direct.example/v.m3u8".to_string(), "unknown".to_string()),
        ]
    );
}

#[test]
fn parse_provider_links_reads_links_and_hls() {
    let resp = obj(vec![
        (
            "links",
            Json::Array(vec![
                obj(vec![
                    ("link", s("https://v/1080.mp4")),
                    ("resolutionStr", s("1080p")),
                    ("headers", obj(vec![("Referer", s("https://ref/"))])),
                ]),
                obj(vec![("resolutionStr", s("720p"))]),
                obj(vec![("link", s("https://v/auto.mp4"))]),
            ]),
        ),
        ("hls", s("https://v/master.m3u8")),
        ("Referer", s("https://top/")),
    ]);
    let streams = parse_provider_links(Some(&resp), "Default");
    assert_eq!(streams.len(), 3);
    assert_eq!(streams[0].url, "https://v/1080.mp4");
    assert_eq!(streams[0].quality, Quality::P1080);
    assert_eq!(streams[0].referer.as_deref(), Some("https://ref/"));
    assert_eq!(streams[0].provider, "Default");
    assert_eq!(streams[1].url, "https://v/auto.mp4");
    assert_eq!(streams[1].quality, Quality::Unknown);
    assert_eq!(streams[1].referer.as_deref(), Some("https://top/"));
    assert_eq!(streams[2].url, "https://v/master.m3u8");
    assert_eq!(streams[2].quality, Quality::Unknown);
    assert!(parse_provider_links(None, "Default").is_empty());
}

#[test]
fn episodes_in_exponent_form_are_kept() {
    let resp = obj(vec![(
        "data",
        obj(vec![("show", obj(vec![("availableEpisodesDetail", obj(vec![("sub", Json::Array(vec![s("1e2"), s("3")]))]))]))]),
    )]);
    let nums: Vec<i64> = parse_episodes(&resp, "sub").iter().map(|e| e.number).collect();
    assert_eq!(nums, vec![3000, 100_000]);
}

#[test]
fn provider_links_read_from_body_text() {
    let body = r#"{"links":[{"link":"https://v/a.mp4","resolutionStr":"720p"}],"hls":"https://v/m.m3u8"}"#;
    let streams = provider_links_from_body(body, "Default");
    assert_eq!(streams.len(), 2);
    assert_eq!(streams[0].url, "https://v/a.mp4");
    assert_eq!(streams[0].quality, Quality::P720);
    assert_eq!(streams[1].url, "https://v/m.m3u8");
    assert!(provider_links_from_body("<html>not json</html>", "Default").is_empty());
    assert!(parse_json_text("{").is_none());
    match parse_json_text(r#"{"n": -3, "f": 2.5, "u": 7}"#) {
        Some(Json::Object(fields)) => assert_eq!(fields.len(), 3),
        _ => panic!("expected an object"),
    }
}
