use ani_tui::api::{anilist, jikan, kitsu, notify};
use ani_tui::json::{Json, JsonNumber};

fn s(x: &str) -> Json {
    Json::Str(x.to_string())
}

fn n(x: u64) -> Json {
    Json::Number(JsonNumber::PosInt(x))
}

fn f(x: &str) -> Json {
    Json::Number(JsonNumber::Float(x.to_string()))
}

fn obj(fields: Vec<(&str, Json)>) -> Json {
    Json::Object(fields.into_iter().map(|(k, v)| (k.to_string(), v)).collect())
}

#[test]
fn jikan_anime_fields() {
    let m = obj(vec![
        ("mal_id", n(52991)),
        ("title", s("Sousou no Frieren")),
        ("title_english", s("Frieren: Beyond Journey's End")),
        ("synopsis", s("An elf mage.")),
        ("images", obj(vec![("jpg", obj(vec![("image_url", s("small.jpg")), ("large_image_url", s("large.jpg"))]))])),
        ("episodes", n(28)),
        ("genres", Json::Array(vec![obj(vec![("name", s("Adventure"))]), obj(vec![("id", n(1))]), obj(vec![("name", s("Fantasy"))])])),
        ("score", f("9.31")),
    ]);
    let a = jikan::parse_anime(&m).unwrap();
    assert_eq!(a.id, "52991");
    assert_eq!(a.title, "Frieren: Beyond Journey's End");
    assert_eq!(a.synopsis.as_deref(), Some("An elf mage."));
    assert_eq!(a.poster_url.as_deref(), Some("large.jpg"));
    assert_eq!(a.episode_count, Some(28));
    assert_eq!(a.genres, vec!["Adventure".to_string(), "Fantasy".to_string()]);
    assert_eq!(a.rating, Some(9310));
}

#[test]
fn jikan_anime_needs_id_and_title() {
    assert!(jikan::parse_anime(&obj(vec![("title", s("x"))])).is_none());
    assert!(jikan::parse_anime(&obj(vec![("mal_id", n(1))])).is_none());
    let a = jikan::parse_anime(&obj(vec![("mal_id", n(1)), ("title", s("Default"))])).unwrap();
    assert_eq!(a.title, "Default");
    assert_eq!(a.rating, None);
    assert!(a.genres.is_empty());
}

#[test]
fn jikan_search_and_detail() {
    let resp = obj(vec![(
        "data",
        Json::Array(vec![
            obj(vec![("mal_id", n(1)), ("title", s("A"))]),
            obj(vec![("title", s("no id"))]),
            obj(vec![("mal_id", n(2)), ("title", s("B"))]),
        ]),
    )]);
    let results = jikan::parse_search(&resp);
    let ids: Vec<&str> = results.iter().map(|a| a.id.as_str()).collect();
    assert_eq!(ids, vec!["1", "2"]);
    let detail = obj(vec![("data", obj(vec![("mal_id", n(7)), ("title", s("Seven"))]))]);
    assert_eq!(jikan::parse_detail(&detail).unwrap().id, "7");
    assert!(jikan::parse_detail(&Json::Null).is_none());
}

#[test]
fn jikan_episode_page() {
    let resp = obj(vec![
        (
            "data",
            Json::Array(vec![
                obj(vec![
                    ("mal_id", n(1)),
                    ("title", s("The End")),
                    ("filler", Json::Bool(true)),
                    ("aired", s("2023-09-29T00:00:00+00:00")),
                ]),
                obj(vec![("title", s("No number"))]),
            ]),
        ),
        ("pagination", obj(vec![("has_next_page", Json::Bool(true))])),
    ]);
    let (eps, more) = jikan::parse_episode_page(&resp);
    assert!(more);
    assert_eq!(eps.len(), 2);
    assert_eq!(eps[0].number, 1000);
    assert_eq!(eps[0].title.as_deref(), Some("The End"));
    assert!(eps[0].is_filler);
    assert_eq!(eps[0].aired.as_deref(), Some("2023-09-29"));
    assert_eq!(eps[1].number, 0);
    assert!(!eps[1].is_filler);
    let (none, more) = jikan::parse_episode_page(&Json::Null);
    assert!(none.is_empty() && !more);
}

#[test]
fn jikan_episode_detail_falls_back_to_number() {
    let resp = obj(vec![("data", obj(vec![("synopsis", s("Story."))]))]);
    let ep = jikan::parse_episode_detail(&resp, 5000);
    assert_eq!(ep.number, 5000);
    assert_eq!(ep.synopsis.as_deref(), Some("Story."));
    assert_eq!(jikan::date_of(&"2024-01-05".to_string()), "2024-01-05");
}

#[test]
fn anilist_media_fields() {
    let m = obj(vec![
        ("id", n(154587)),
        ("title", obj(vec![("romaji", s("Sousou no Frieren")), ("english", Json::Null)])),
        ("description", s("An <i>elf</i> mage.<br>Long lived.<br/><b>End</b>")),
        ("coverImage", obj(vec![("large", s("l.jpg"))])),
        ("episodes", n(28)),
        ("genres", Json::Array(vec![s("Adventure"), n(3), s("Drama")])),
        ("averageScore", n(91)),
    ]);
    let a = anilist::parse_media(&m).unwrap();
    assert_eq!(a.id, "154587");
    assert_eq!(a.title, "Sousou no Frieren");
    assert_eq!(a.synopsis.as_deref(), Some("An elf mage.\nLong lived.\nEnd"));
    assert_eq!(a.poster_url.as_deref(), Some("l.jpg"));
    assert_eq!(a.genres, vec!["Adventure".to_string(), "Drama".to_string()]);
    assert_eq!(a.rating, Some(9100));
    let resp = obj(vec![("data", obj(vec![("Page", obj(vec![("media", Json::Array(vec![m.clone_json()]))]))]))]);
    assert_eq!(anilist::parse_search(&resp).len(), 1);
    let detail = obj(vec![("data", obj(vec![("Media", m)]))]);
    assert_eq!(anilist::parse_detail(&detail).unwrap().id, "154587");
}

trait CloneJson {
    fn clone_json(&self) -> Json;
}

impl CloneJson for Json {
    fn clone_json(&self) -> Json {
        match self {
            Json::Null => Json::Null,
            Json::Bool(b) => Json::Bool(*b),
            Json::Number(JsonNumber::PosInt(x)) => Json::Number(JsonNumber::PosInt(*x)),
            Json::Number(JsonNumber::NegInt(x)) => Json::Number(JsonNumber::NegInt(*x)),
            Json::Number(JsonNumber::Float(t)) => Json::Number(JsonNumber::Float(t.clone())),
            Json::Str(t) => Json::Str(t.clone()),
            Json::Array(v) => Json::Array(v.iter().map(|x| x.clone_json()).collect()),
            Json::Object(v) => Json::Object(v.iter().map(|(k, x)| (k.clone(), x.clone_json())).collect()),
        }
    }
}

#[test]
fn kitsu_search_with_genres() {
    let resp = obj(vec![
        (
            "data",
            Json::Array(vec![obj(vec![
                ("id", s("42")),
                (
                    "attributes",
                    obj(vec![
                        ("titles", obj(vec![("en_jp", s("Frieren"))])),
                        ("canonicalTitle", s("Canonical")),
                        ("synopsis", s("Elf.")),
                        ("posterImage", obj(vec![("original", s("o.jpg"))])),
                        ("episodeCount", n(28)),
                        ("averageRating", s("90.5")),
                    ]),
                ),
                (
                    "relationships",
                    obj(vec![(
                        "genres",
                        obj(vec![(
                            "data",
                            Json::Array(vec![obj(vec![("id", s("1"))]), obj(vec![("id", s("9"))]), obj(vec![("id", s("2"))])]),
                        )]),
                    )]),
                ),
            ])]),
        ),
        (
            "included",
            Json::Array(vec![
                obj(vec![("type", s("genres")), ("id", s("1")), ("attributes", obj(vec![("name", s("Adventure"))]))]),
                obj(vec![("type", s("genres")), ("id", s("2")), ("attributes", obj(vec![("name", s("Fantasy"))]))]),
                obj(vec![("type", s("categories")), ("id", s("9")), ("attributes", obj(vec![("name", s("Magic"))]))]),
            ]),
        ),
    ]);
    let map = kitsu::build_genre_map(&resp);
    assert_eq!(map, vec![("1".to_string(), "Adventure".to_string()), ("2".to_string(), "Fantasy".to_string())]);
    let results = kitsu::parse_search(&resp);
    assert_eq!(results.len(), 1);
    let a = &results[0];
    assert_eq!(a.id, "42");
    assert_eq!(a.title, "Frieren");
    assert_eq!(a.poster_url.as_deref(), Some("o.jpg"));
    assert_eq!(a.genres, vec!["Adventure".to_string(), "Fantasy".to_string()]);
    assert_eq!(a.rating, Some(9050));
}

#[test]
fn kitsu_episode_page() {
    let resp = obj(vec![
        (
            "data",
            Json::Array(vec![obj(vec![(
                "attributes",
                obj(vec![("number", n(3)), ("canonicalTitle", s("Three")), ("airdate", s("2023-10-13"))]),
            )])]),
        ),
        ("links", obj(vec![("next", s("https://kitsu.io/next"))])),
    ]);
    let (eps, more) = kitsu::parse_episode_page(&resp);
    assert!(more);
    assert_eq!(eps[0].number, 3000);
    assert_eq!(eps[0].title.as_deref(), Some("Three"));
    assert_eq!(eps[0].aired.as_deref(), Some("2023-10-13"));
    let (_, more) = kitsu::parse_episode_page(&obj(vec![("data", Json::Array(vec![]))]));
    assert!(!more);
}

#[test]
fn notify_percent_encoding() {
    assert_eq!(notify::percent_encode("Frieren"), "Frieren");
    assert_eq!(notify::percent_encode("one piece"), "one%20piece");
    assert_eq!(notify::percent_encode("a-b_c.d~e"), "a-b_c.d~e");
    assert_eq!(notify::percent_encode("re:zero!"), "re%3Azero%21");
    assert_eq!(notify::percent_encode("é"), "%C3%A9");
    assert_eq!(notify::percent_encode(""), "");
}

#[test]
fn notify_extracts_ids() {
    let html = "<a href='/anime/abc'>A</a><a href='/anime/def'>B</a><a href='/anime/open";
    assert_eq!(notify::extract_anime_ids(html), vec!["abc".to_string(), "def".to_string()]);
    let many: String = (0..20).map(|i| format!("<a href='/anime/id{i}'>x</a>")).collect();
    let ids = notify::extract_anime_ids(&many);
    assert_eq!(ids.len(), 15);
    assert_eq!(ids[0], "id0");
    assert_eq!(ids[14], "id14");
    assert!(notify::extract_anime_ids("no links").is_empty());
}

#[test]
fn notify_anime_fields() {
    let m = obj(vec![
        ("id", s("xyz")),
        ("title", obj(vec![("canonical", s("Frieren"))])),
        ("summary", s("Line one.\r\nLine two.")),
        ("image", obj(vec![("extension", s(".jpg")), ("lastModified", n(1700000000))])),
        ("episodeCount", n(28)),
        ("genres", Json::Array(vec![s("Fantasy")])),
        ("rating", obj(vec![("overall", f("8.5"))])),
    ]);
    let a = notify::parse_anime(&m).unwrap();
    assert_eq!(a.title, "Frieren");
    assert_eq!(a.synopsis.as_deref(), Some("Line one.\nLine two."));
    assert_eq!(a.poster_url.as_deref(), Some("https://media.notify.moe/images/anime/large/xyz.jpg?1700000000"));
    assert_eq!(a.rating, Some(8500));
    assert!(notify::parse_anime(&obj(vec![("id", s("no title"))])).is_none());
}

#[test]
fn notify_encoding_is_url_safe() {
    let encoded = notify::percent_encode("Shingeki no Kyojin: 進撃の巨人 / part #2?");
    assert!(encoded
        .chars()
        .all(|c| c.is_ascii_alphanumeric() || "-_.~%".contains(c)));
    assert!(encoded.starts_with("Shingeki%20no%20Kyojin%3A%20%E9%80%B2"));
}
