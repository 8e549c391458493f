//! The Notify.moe metadata source.

use vstd::prelude::*;

use vstd::string::StringSliceAdditionalSpecFns;

use crate::api::{or_else, replace_text, somes, string_elems, strings_in};
use crate::api::jikan::first_index_of;
use crate::json::{
    array_of, as_array, as_fixed, as_i64, as_str, as_text, as_u64, at, fixed_of, get, i64_of,
    text_of, u64_of, Json,
};
use crate::model::anime::{opt_view, string_views, Anime, AnimeView};
use crate::number::{int_text, int_to_text};
use crate::text::{chars_of, occurs_at_exec, replace_all, string_from_chars};

verus! {

/// Bytes that a URL path may hold as they are.
pub open spec fn unreserved(b: u8) -> bool {
    (65 <= b <= 90) || (97 <= b <= 122) || (48 <= b <= 57) || b == 45 || b == 95 || b == 46
        || b == 126
}

/// The upper-case hex digit of `n` (below 16).
pub open spec fn hex_digit(n: u8) -> char {
    if n < 10 {
        ((48 + n) as u8) as char
    } else {
        ((65 + n - 10) as u8) as char
    }
}

/// How one byte of the query is written in the URL.
pub open spec fn encode_byte(b: u8) -> Seq<char> {
    if unreserved(b) {
        seq![b as char]
    } else if b == 32 {
        seq!['%', '2', '0']
    } else {
        seq!['%', hex_digit(b / 16), hex_digit(b % 16)]
    }
}

/// The percent-encoding of a byte string.
pub open spec fn percent_encoded(bytes: Seq<u8>) -> Seq<char>
    decreases bytes.len(),
{
    if bytes.len() == 0 {
        Seq::empty()
    } else {
        percent_encoded(bytes.drop_last()) + encode_byte(bytes.last())
    }
}

/// Characters that may stand in a URL path as they are, and the escape mark.
pub open spec fn url_path_char(c: char) -> bool {
    ('A' <= c && c <= 'Z') || ('a' <= c && c <= 'z') || ('0' <= c && c <= '9') || c == '-'
        || c == '_' || c == '.' || c == '~' || c == '%'
}

proof fn lemma_encode_byte_safe(b: u8)
    ensures
        forall|i: int| 0 <= i < encode_byte(b).len() ==> url_path_char(#[trigger] encode_byte(b)[i]),
{
    let e = encode_byte(b);
    if unreserved(b) {
        assert(e[0] == b as char);
        assert((b as char) as u32 == b as u32);
    } else if b == 32 {
    } else {
        let hi = b / 16;
        let lo = b % 16;
        assert(hi < 16 && lo < 16);
        assert(hex_digit(hi) as u32 == (if hi < 10 { 48 + hi } else { 55 + hi }));
        assert(hex_digit(lo) as u32 == (if lo < 10 { 48 + lo } else { 55 + lo }));
    }
}

/// The encoded query holds only characters that a URL path takes as they are,
/// and `%` escapes.
pub proof fn percent_encoding_is_url_safe(bytes: Seq<u8>)
    ensures
        forall|i: int|
            0 <= i < percent_encoded(bytes).len() ==> url_path_char(#[trigger] percent_encoded(bytes)[i]),
    decreases bytes.len(),
{
    if bytes.len() > 0 {
        percent_encoding_is_url_safe(bytes.drop_last());
        lemma_encode_byte_safe(bytes.last());
        let a = percent_encoded(bytes.drop_last());
        let e = encode_byte(bytes.last());
        assert forall|i: int| 0 <= i < (a + e).len() implies url_path_char(#[trigger] (a + e)[i]) by {
            if i < a.len() {
                assert((a + e)[i] == a[i]);
            } else {
                assert((a + e)[i] == e[i - a.len()]);
            }
        }
    }
}

fn hex_digit_exec(n: u8) -> (c: char)
    requires
        n < 16,
    ensures
        c == hex_digit(n),
{
    if n < 10 {
        (48 + n) as char
    } else {
        (65 + n - 10) as char
    }
}

/// Percent-encodes the UTF-8 bytes of a search query for the URL path.
pub fn percent_encode(query: &str) -> (r: String)
    ensures
        r@ == percent_encoded(query.spec_bytes()),
{
    let bytes = query.as_bytes();
    let mut out: Vec<char> = Vec::new();
    let n = bytes.len();
    for i in 0..n
        invariant
            n == bytes@.len(),
            out@ == percent_encoded(bytes@.take(i as int)),
    {
        let b = bytes[i];
        assert(bytes@.take(i + 1).drop_last() =~= bytes@.take(i as int));
        let ghost before = out@;
        if (65 <= b && b <= 90) || (97 <= b && b <= 122) || (48 <= b && b <= 57) || b == 45 || b
            == 95 || b == 46 || b == 126 {
            out.push(b as char);
        } else if b == 32 {
            out.push('%');
            out.push('2');
            out.push('0');
        } else {
            out.push('%');
            out.push(hex_digit_exec(b / 16));
            out.push(hex_digit_exec(b % 16));
        }
        assert(out@ =~= before + encode_byte(b));
    }
    assert(bytes@.take(n as int) =~= bytes@);
    string_from_chars(&out)
}

/// The anime ids linked as `href='/anime/{id}'` in a search page, in
/// order; a link is read up to the next `'` of the page.
pub open spec fn linked_ids(s: Seq<char>) -> Seq<Seq<char>>
    decreases s.len(),
{
    let pat = "href='/anime/"@;
    if s.len() < pat.len() || pat.len() == 0 {
        Seq::empty()
    } else if s.take(pat.len() as int) == pat {
        let rest = s.skip(pat.len() as int);
        let q = first_index_of(rest, '\'');
        (if q < rest.len() {
            seq![rest.take(q)]
        } else {
            Seq::empty()
        }) + linked_ids(rest)
    } else {
        linked_ids(s.skip(1))
    }
}

proof fn lemma_first_quote(s: Seq<char>)
    ensures
        0 <= first_index_of(s, '\'') <= s.len(),
        forall|j: int| 0 <= j < first_index_of(s, '\'') ==> s[j] != '\'',
        first_index_of(s, '\'') < s.len() ==> s[first_index_of(s, '\'')] == '\'',
    decreases s.len(),
{
    if s.len() > 0 && s[0] != '\'' {
        lemma_first_quote(s.skip(1));
        assert forall|j: int| 0 <= j < first_index_of(s, '\'') implies s[j] != '\'' by {
            if j > 0 {
                assert(s[j] == s.skip(1)[j - 1]);
            }
        }
    }
}

/// The text from `from` up to the next `'`, if there is one.
fn quoted_until(v: &Vec<char>, from: usize) -> (r: Option<Vec<char>>)
    requires
        from <= v.len(),
    ensures
        ({
            let rest = v@.skip(from as int);
            let q = first_index_of(rest, '\'');
            match r {
                Some(x) => q < rest.len() && x@ == rest.take(q),
                None => q >= rest.len(),
            }
        }),
{
    let ghost rest = v@.skip(from as int);
    proof {
        lemma_first_quote(rest);
    }
    let mut out: Vec<char> = Vec::new();
    let mut i = from;
    while i < v.len()
        invariant
            from <= i <= v.len(),
            rest == v@.skip(from as int),
            out@ == rest.take(i - from),
            forall|j: int| 0 <= j < i - from ==> rest[j] != '\'',
            0 <= first_index_of(rest, '\'') <= rest.len(),
            forall|j: int| 0 <= j < first_index_of(rest, '\'') ==> rest[j] != '\'',
            first_index_of(rest, '\'') < rest.len() ==> rest[first_index_of(rest, '\'')] == '\'',
        decreases v.len() - i,
    {
        assert(rest[i - from] == v@[i as int]);
        if v[i] == '\'' {
            assert(first_index_of(rest, '\'') == i - from);
            return Some(out);
        }
        out.push(v[i]);
        assert(rest.take(i - from + 1) == rest.take(i - from).push(v@[i as int]));
        i = i + 1;
    }
    assert(first_index_of(rest, '\'') == rest.len());
    None
}

/// The anime ids linked from a Notify.moe search page, at most 15.
pub fn extract_anime_ids(html: &str) -> (r: Vec<String>)
    ensures
        string_views(r@) == linked_ids(html@).take(
            if linked_ids(html@).len() < 15 {
                linked_ids(html@).len() as int
            } else {
                15
            },
        ),
{
    let v = chars_of(html);
    let pat = chars_of("href='/anime/");
    proof {
        reveal_strlit("href='/anime/");
    }
    let m = pat.len();
    let n = v.len();
    let mut found: Vec<String> = Vec::new();
    let mut i: usize = 0;
    assert(v@.skip(0) =~= v@);
    while i < n && found.len() < 15
        invariant
            n == v.len(),
            m == pat.len(),
            pat@ == "href='/anime/"@,
            m == 13,
            i <= n,
            found@.len() <= 15,
            string_views(found@) + linked_ids(v@.skip(i as int)) == linked_ids(v@),
        decreases n - i,
    {
        let ghost s = v@.skip(i as int);
        if n - i < m {
            assert(linked_ids(s) == Seq::<Seq<char>>::empty());
            i = n;
            assert(v@.skip(n as int) =~= Seq::<char>::empty());
            continue;
        }
        assert(s.take(13) =~= v@.subrange(i as int, i + 13));
        if occurs_at_exec(&v, &pat, i) {
            assert(s.skip(13) =~= v@.skip(i + 13));
            let ghost before = string_views(found@);
            match quoted_until(&v, i + m) {
                Some(id) => {
                    let id_s = string_from_chars(&id);
                    found.push(id_s);
                    assert(string_views(found@) =~= before + seq![id@]);
                },
                None => {
                    assert(string_views(found@) =~= before + Seq::<Seq<char>>::empty());
                },
            }
            i = i + m;
        } else {
            assert(s.skip(1) =~= v@.skip(i + 1));
            i = i + 1;
        }
    }
    proof {
        let all = linked_ids(v@);
        let k = found@.len();
        assert(string_views(found@).len() == k);
        assert(all.take(k as int) =~= string_views(found@));
        if k < 15 {
            assert(i == n);
            assert(v@.skip(n as int) =~= Seq::<char>::empty());
            assert(all =~= string_views(found@));
        }
    }
    found
}

/// The image base URL of Notify.moe.
pub open spec fn media_base() -> Seq<char> {
    "https://media.notify.moe/images/anime"@
}

/// The anime that a Notify.moe anime object describes; it needs a string id
/// and a title. The poster URL is built from the image extension and its
/// last-modified time.
pub open spec fn anime(m: Json) -> Option<AnimeView> {
    let j = Some(m);
    let title = or_else(
        text_of(at(at(j, "title"@), "english"@)),
        or_else(text_of(at(at(j, "title"@), "canonical"@)), text_of(at(at(j, "title"@), "romaji"@))),
    );
    match (text_of(at(j, "id"@)), title) {
        (Some(id), Some(title)) => Some(AnimeView {
            id,
            title,
            synopsis: match text_of(at(j, "summary"@)) {
                Some(s) => Some(replace_all(s, "\r\n"@, "\n"@)),
                None => None,
            },
            poster_url: match text_of(at(at(j, "image"@), "extension"@)) {
                Some(ext) => Some(
                    media_base() + "/large/"@ + id + ext + "?"@ + int_text(
                        match i64_of(at(at(j, "image"@), "lastModified"@)) {
                            Some(t) => t as int,
                            None => 0,
                        },
                    ),
                ),
                None => None,
            },
            episode_count: match u64_of(at(j, "episodeCount"@)) {
                Some(n) => Some(n as u32),
                None => None,
            },
            genres: match array_of(at(j, "genres"@)) {
                Some(a) => string_elems(a),
                None => Seq::empty(),
            },
            rating: fixed_of(at(at(j, "rating"@), "overall"@), 3),
        }),
        _ => None,
    }
}

/// A Notify.moe anime is read when it has a string id and a title. Its
/// title is the English one, then the canonical one, and the romaji title
/// only when neither is present.
pub proof fn anime_title_prefers_english(m: Json)
    ensures
        ({
            let t = at(Some(m), "title"@);
            let english = text_of(at(t, "english"@));
            let canonical = text_of(at(t, "canonical"@));
            let romaji = text_of(at(t, "romaji"@));
            &&& anime(m) is Some <==> (text_of(at(Some(m), "id"@)) is Some && (english is Some
                || canonical is Some || romaji is Some))
            &&& anime(m) is Some && english is Some ==> anime(m)->0.title == english->0
            &&& anime(m) is Some && english is None && canonical is Some ==> anime(m)->0.title
                == canonical->0
            &&& anime(m) is Some && english is None && canonical is None ==> anime(m)->0.title
                == romaji->0
        }),
{
}

/// Reads one Notify.moe anime object.
pub fn parse_anime(m: &Json) -> (r: Option<Anime>)
    ensures
        match r {
            Some(a) => anime(*m) == Some(a@),
            None => anime(*m) is None,
        },
{
    let j = Some(m);
    let id = match as_text(get(j, "id")) {
        Some(id) => id,
        None => {
            return None;
        },
    };
    let t = get(j, "title");
    let title = match as_text(get(t, "english")) {
        Some(x) => x,
        None => match as_text(get(t, "canonical")) {
            Some(x) => x,
            None => match as_text(get(t, "romaji")) {
                Some(x) => x,
                None => {
                    return None;
                },
            },
        },
    };
    proof {
        reveal_strlit("\r\n");
    }
    let synopsis = match as_str(get(j, "summary")) {
        Some(s) => Some(replace_text(s, "\r\n", "\n")),
        None => None,
    };
    let image = get(j, "image");
    let poster_url = match as_str(get(image, "extension")) {
        Some(ext) => {
            let last_modified = match as_i64(get(image, "lastModified")) {
                Some(t) => t,
                None => 0,
            };
            let lm = string_from_chars(&int_to_text(last_modified));
            let url = String::from_str("https://media.notify.moe/images/anime").concat(
                "/large/",
            ).concat(id.as_str()).concat(ext.as_str()).concat("?").concat(lm.as_str());
            Some(url)
        },
        None => None,
    };
    let episode_count = match as_u64(get(j, "episodeCount")) {
        Some(n) => Some(n as u32),
        None => None,
    };
    let genres = match as_array(get(j, "genres")) {
        Some(a) => strings_in(a),
        None => Vec::new(),
    };
    let rating = as_fixed(get(get(j, "rating"), "overall"), 3);
    let a = Anime { id, title, synopsis, poster_url, episode_count, genres, rating };
    assert(string_views(a.genres@) =~= (match array_of(at(Some(*m), "genres"@)) {
        Some(arr) => string_elems(arr),
        None => Seq::<Seq<char>>::empty(),
    }));
    Some(a)
}

} // verus!
