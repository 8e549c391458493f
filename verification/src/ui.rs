//! Text layout and the choices offered by the setup wizard.
//! Drawing happens outside the library.

use vstd::prelude::*;

use crate::config::PlayerName;
use crate::text::{chars_of, string_from_chars};

verus! {

/// Whether `c` is Unicode white space (the `White_Space` property that
/// `char::is_whitespace` tests).
pub open spec fn is_space(c: char) -> bool {
    let u = c as u32;
    (0x9 <= u && u <= 0xd) || u == 0x20 || u == 0x85 || u == 0xa0 || u == 0x1680 || (0x2000 <= u
        && u <= 0x200a) || u == 0x2028 || u == 0x2029 || u == 0x202f || u == 0x205f || u == 0x3000
}

pub(crate) fn is_space_exec(c: char) -> (r: bool)
    ensures
        r == is_space(c),
{
    let u = c as u32;
    (0x9 <= u && u <= 0xd) || u == 0x20 || u == 0x85 || u == 0xa0 || u == 0x1680 || (0x2000 <= u
        && u <= 0x200a) || u == 0x2028 || u == 0x2029 || u == 0x202f || u == 0x205f || u == 0x3000
}

/// Number of bytes of `c` in UTF-8.
pub open spec fn char_len(c: char) -> nat {
    let u = c as u32;
    if u < 0x80 {
        1
    } else if u < 0x800 {
        2
    } else if u < 0x10000 {
        3
    } else {
        4
    }
}

/// Number of bytes of `s` in UTF-8.
pub open spec fn byte_len(s: Seq<char>) -> nat
    decreases s.len(),
{
    if s.len() == 0 {
        0
    } else {
        byte_len(s.drop_last()) + char_len(s.last())
    }
}

/// Splitting into words: the finished words and the word being read.
pub open spec fn split_state(s: Seq<char>) -> (Seq<Seq<char>>, Seq<char>)
    decreases s.len(),
{
    if s.len() == 0 {
        (Seq::empty(), Seq::empty())
    } else {
        let (done, cur) = split_state(s.drop_last());
        if is_space(s.last()) {
            if cur.len() > 0 {
                (done.push(cur), Seq::empty())
            } else {
                (done, cur)
            }
        } else {
            (done, cur.push(s.last()))
        }
    }
}

/// The words of `s`: its maximal runs of non-space characters.
pub open spec fn words(s: Seq<char>) -> Seq<Seq<char>> {
    let (done, cur) = split_state(s);
    if cur.len() > 0 {
        done.push(cur)
    } else {
        done
    }
}

/// Greedy filling of lines: the finished lines and the line being filled.
pub open spec fn fill_state(ws: Seq<Seq<char>>, width: nat) -> (Seq<Seq<char>>, Seq<char>)
    decreases ws.len(),
{
    if ws.len() == 0 {
        (Seq::empty(), Seq::empty())
    } else {
        let (lines, cur) = fill_state(ws.drop_last(), width);
        let w = ws.last();
        if cur.len() == 0 {
            (lines, w)
        } else if byte_len(cur) + 1 + byte_len(w) <= width {
            (lines, cur + seq![' '] + w)
        } else {
            (lines.push(cur), w)
        }
    }
}

/// `text` word-wrapped to `width` bytes: words are put on a line, separated
/// by one space, while the line stays within the width; a longer word gets
/// a line of its own. There is always at least one line, and a width of 0
/// keeps the text as it is.
pub open spec fn wrapped(text: Seq<char>, width: nat) -> Seq<Seq<char>> {
    if width == 0 {
        seq![text]
    } else {
        let (lines, cur) = fill_state(words(text), width);
        let all = if cur.len() > 0 {
            lines.push(cur)
        } else {
            lines
        };
        if all.len() == 0 {
            seq![Seq::empty()]
        } else {
            all
        }
    }
}

fn char_len_exec(c: char) -> (r: usize)
    ensures
        r == char_len(c),
{
    let u = c as u32;
    if u < 0x80 {
        1
    } else if u < 0x800 {
        2
    } else if u < 0x10000 {
        3
    } else {
        4
    }
}

/// The views of a list of character vectors.
pub open spec fn char_lines(v: Seq<Vec<char>>) -> Seq<Seq<char>> {
    v.map_values(|l: Vec<char>| l@)
}

proof fn lemma_byte_len_bound(s: Seq<char>)
    ensures
        byte_len(s) <= 4 * s.len(),
    decreases s.len(),
{
    if s.len() > 0 {
        lemma_byte_len_bound(s.drop_last());
    }
}

proof fn lemma_byte_len_push(s: Seq<char>, c: char)
    ensures
        byte_len(s.push(c)) == byte_len(s) + char_len(c),
{
    assert(s.push(c).drop_last() =~= s);
}

proof fn lemma_byte_len_concat(a: Seq<char>, b: Seq<char>)
    ensures
        byte_len(a + b) == byte_len(a) + byte_len(b),
    decreases b.len(),
{
    if b.len() == 0 {
        assert(a + b =~= a);
    } else {
        lemma_byte_len_concat(a, b.drop_last());
        assert((a + b).drop_last() =~= a + b.drop_last());
    }
}

/// One greedy step: `w` added to the lines `lines` and the line `cur`.
fn fill_word(
    lines: &mut Vec<Vec<char>>,
    cur: &mut Vec<char>,
    cur_len: &mut u128,
    w: Vec<char>,
    w_len: u128,
    width: usize,
)
    requires
        *old(cur_len) == byte_len(old(cur)@),
        w_len == byte_len(w@),
        *old(cur_len) <= 0x1_0000_0000_0000_0000_0000,
        w_len <= 0x1_0000_0000_0000_0000_0000,
    ensures
        (char_lines(final(lines)@), final(cur)@) == (if old(cur)@.len() == 0 {
            (char_lines(old(lines)@), w@)
        } else if byte_len(old(cur)@) + 1 + byte_len(w@) <= width {
            (char_lines(old(lines)@), old(cur)@ + seq![' '] + w@)
        } else {
            (char_lines(old(lines)@).push(old(cur)@), w@)
        }),
        *final(cur_len) == byte_len(final(cur)@),
{
    if cur.len() == 0 {
        *cur = w;
        *cur_len = w_len;
    } else if *cur_len + 1 + w_len <= width as u128 {
        let ghost c0 = cur@;
        cur.push(' ');
        let mut k: usize = 0;
        let ghost c1 = cur@;
        while k < w.len()
            invariant
                k <= w.len(),
                cur@ == c1 + w@.take(k as int),
            decreases w.len() - k,
        {
            cur.push(w[k]);
            assert(w@.take(k + 1) == w@.take(k as int).push(w@[k as int]));
            k = k + 1;
        }
        assert(w@.take(w.len() as int) =~= w@);
        proof {
            lemma_byte_len_push(c0, ' ');
            lemma_byte_len_concat(c1, w@);
            assert(c1 == c0 + seq![' ']);
        }
        *cur_len = *cur_len + 1 + w_len;
    } else {
        let ghost l0 = lines@;
        let mut old_cur = w;
        std::mem::swap(&mut old_cur, cur);
        lines.push(old_cur);
        assert(char_lines(lines@) =~= char_lines(l0).push(old_cur@));
        *cur_len = w_len;
    }
}

/// Word-wrap `text` to fit within `width` columns (bytes), breaking at word boundaries.
pub fn wrap_text(text: &str, width: usize) -> (r: Vec<String>)
    ensures
        r@.map_values(|s: String| s@) == wrapped(text@, width as nat),
{
    if width == 0 {
        let mut r: Vec<String> = Vec::new();
        r.push(String::from_str(text));
        assert(r@.map_values(|s: String| s@) =~= seq![text@]);
        return r;
    }
    let v = chars_of(text);
    let n = v.len();
    let mut lines: Vec<Vec<char>> = Vec::new();
    let mut cur: Vec<char> = Vec::new();
    let mut cur_len: u128 = 0;
    let mut w: Vec<char> = Vec::new();
    let mut w_len: u128 = 0;
    let ghost mut done: Seq<Seq<char>> = Seq::empty();
    assert(v@.take(0) =~= Seq::<char>::empty());
    for i in 0..n
        invariant
            n == v.len(),
            split_state(v@.take(i as int)) == (done, w@),
            fill_state(done, width as nat) == (char_lines(lines@), cur@),
            cur_len == byte_len(cur@),
            w_len == byte_len(w@),
            cur@.len() + w@.len() <= i,
            w@.len() > 0 ==> forall|k: int| 0 <= k < w@.len() ==> !is_space(#[trigger] w@[k]),
    {
        let c = v[i];
        assert(v@.take(i + 1).drop_last() =~= v@.take(i as int));
        assert(v@.take(i + 1).last() == c);
        proof {
            lemma_byte_len_bound(cur@);
            lemma_byte_len_bound(w@);
        }
        if is_space_exec(c) {
            if w.len() > 0 {
                let ghost d0 = done;
                let ghost w0 = w@;
                let mut word: Vec<char> = Vec::new();
                std::mem::swap(&mut word, &mut w);
                fill_word(&mut lines, &mut cur, &mut cur_len, word, w_len, width);
                w_len = 0;
                proof {
                    done = d0.push(w0);
                    assert(done.drop_last() =~= d0);
                    assert(done.last() == w0);
                    lemma_byte_len_bound(cur@);
                }
                assert(w@ =~= Seq::<char>::empty());
            }
        } else {
            proof {
                lemma_byte_len_push(w@, c);
            }
            w.push(c);
            w_len = w_len + char_len_exec(c) as u128;
        }
    }
    assert(v@.take(n as int) =~= v@);
    if w.len() > 0 {
        let ghost d0 = done;
        let ghost w0 = w@;
        proof {
            lemma_byte_len_bound(cur@);
            lemma_byte_len_bound(w@);
        }
        let mut word: Vec<char> = Vec::new();
                std::mem::swap(&mut word, &mut w);
        fill_word(&mut lines, &mut cur, &mut cur_len, word, w_len, width);
        proof {
            done = d0.push(w0);
            assert(done.drop_last() =~= d0);
        }
    }
    assert(words(text@) == done);
    let ghost l0 = lines@;
    if cur.len() > 0 {
        lines.push(cur);
        assert(char_lines(lines@) =~= char_lines(l0).push(cur@));
    }
    if lines.len() == 0 {
        lines.push(Vec::new());
        assert(char_lines(lines@) =~= seq![Seq::<char>::empty()]);
    }
    let mut r: Vec<String> = Vec::new();
    let m = lines.len();
    for k in 0..m
        invariant
            m == lines.len(),
            r@.len() == k,
            forall|j: int| 0 <= j < k ==> (#[trigger] r@[j])@ == lines@[j]@,
    {
        r.push(string_from_chars(&lines[k]));
    }
    assert(r@.map_values(|s: String| s@) =~= char_lines(lines@));
    r
}


/// Every filled line, and the line being filled, fits the width or is a
/// single word.
proof fn lemma_fill_fits(ws: Seq<Seq<char>>, width: nat)
    ensures
        ({
            let (lines, cur) = fill_state(ws, width);
            &&& forall|i: int|
                0 <= i < lines.len() ==> byte_len(#[trigger] lines[i]) <= width || ws.contains(
                    lines[i],
                )
            &&& cur.len() > 0 ==> byte_len(cur) <= width || ws.contains(cur)
        }),
    decreases ws.len(),
{
    if ws.len() > 0 {
        let prev = ws.drop_last();
        lemma_fill_fits(prev, width);
        let (lines, cur) = fill_state(prev, width);
        let w = ws.last();
        assert(ws.contains(w)) by {
            assert(ws[ws.len() - 1] == w);
        }
        assert forall|x: Seq<char>| prev.contains(x) implies ws.contains(x) by {
            let k = choose|k: int| 0 <= k < prev.len() && prev[k] == x;
            assert(ws[k] == x);
        }
        if cur.len() > 0 && byte_len(cur) + 1 + byte_len(w) <= width {
            lemma_byte_len_concat(cur, seq![' ']);
            lemma_byte_len_concat(cur + seq![' '], w);
            assert(byte_len(seq![' ']) == 1) by {
                lemma_byte_len_push(Seq::<char>::empty(), ' ');
                assert(seq![' '] =~= Seq::<char>::empty().push(' '));
                assert((' ' as u32) < 0x80);
            }
        }
        if cur.len() > 0 && byte_len(cur) + 1 + byte_len(w) > width {
            let l2 = lines.push(cur);
            assert forall|i: int| 0 <= i < l2.len() implies byte_len(#[trigger] l2[i]) <= width
                || ws.contains(l2[i]) by {
                if i < lines.len() {
                    assert(l2[i] == lines[i]);
                }
            }
        }
    }
}

/// Wrapping keeps at least one line, and every line fits the width unless
/// it is a single word longer than the width.
pub proof fn wrapped_lines_fit(text: Seq<char>, width: nat)
    requires
        width > 0,
    ensures
        wrapped(text, width).len() >= 1,
        forall|i: int|
            0 <= i < wrapped(text, width).len() ==> byte_len(#[trigger] wrapped(text, width)[i])
                <= width || words(text).contains(wrapped(text, width)[i]),
{
    let ws = words(text);
    lemma_fill_fits(ws, width);
    let (lines, cur) = fill_state(ws, width);
    let all = if cur.len() > 0 {
        lines.push(cur)
    } else {
        lines
    };
    assert forall|i: int| 0 <= i < all.len() implies byte_len(#[trigger] all[i]) <= width
        || ws.contains(all[i]) by {
        if i < lines.len() {
            assert(all[i] == lines[i]);
        }
    }
    if all.len() == 0 {
        assert(byte_len(Seq::<char>::empty()) == 0);
    }
}

/// The words of each line, one line after the other.
pub open spec fn words_of_lines(lines: Seq<Seq<char>>) -> Seq<Seq<char>>
    decreases lines.len(),
{
    if lines.len() == 0 {
        Seq::empty()
    } else {
        words_of_lines(lines.drop_last()) + words(lines.last())
    }
}

/// A word: at least one character, none of them a space.
pub open spec fn is_word(w: Seq<char>) -> bool {
    w.len() > 0 && forall|i: int| 0 <= i < w.len() ==> !is_space(#[trigger] w[i])
}

proof fn lemma_split_words(s: Seq<char>)
    ensures
        forall|i: int| 0 <= i < split_state(s).0.len() ==> is_word(#[trigger] split_state(s).0[i]),
        forall|i: int| 0 <= i < split_state(s).1.len() ==> !is_space(#[trigger] split_state(s).1[i]),
    decreases s.len(),
{
    if s.len() > 0 {
        lemma_split_words(s.drop_last());
        let (done, cur) = split_state(s.drop_last());
        let c = s.last();
        if is_space(c) {
            if cur.len() > 0 {
                let d2 = done.push(cur);
                assert forall|i: int| 0 <= i < d2.len() implies is_word(#[trigger] d2[i]) by {
                    if i < done.len() {
                        assert(d2[i] == done[i]);
                    }
                }
            }
        } else {
            let c2 = cur.push(c);
            assert forall|i: int| 0 <= i < c2.len() implies !is_space(#[trigger] c2[i]) by {
                if i < cur.len() {
                    assert(c2[i] == cur[i]);
                }
            }
        }
    }
}

proof fn lemma_words_are_words(s: Seq<char>)
    ensures
        forall|i: int| 0 <= i < words(s).len() ==> is_word(#[trigger] words(s)[i]),
{
    lemma_split_words(s);
}

/// Reading a run of non-space characters extends the word being read.
proof fn lemma_split_append(x: Seq<char>, w: Seq<char>)
    requires
        forall|i: int| 0 <= i < w.len() ==> !is_space(#[trigger] w[i]),
    ensures
        split_state(x + w) == (split_state(x).0, split_state(x).1 + w),
    decreases w.len(),
{
    if w.len() == 0 {
        assert(x + w =~= x);
        assert(split_state(x).1 + w =~= split_state(x).1);
    } else {
        let w0 = w.drop_last();
        lemma_split_append(x, w0);
        assert((x + w).drop_last() =~= x + w0);
        assert((x + w).last() == w.last());
        assert(split_state(x).1 + w0 + seq![w.last()] =~= split_state(x).1 + w);
        assert((split_state(x).1 + w0).push(w.last()) =~= split_state(x).1 + w);
    }
}

proof fn lemma_words_of_word(w: Seq<char>)
    requires
        is_word(w),
    ensures
        words(w) == seq![w],
{
    lemma_split_append(Seq::empty(), w);
    assert(Seq::<char>::empty() + w =~= w);
    assert(Seq::<char>::empty() + w =~= w);
    assert(Seq::<Seq<char>>::empty().push(w) =~= seq![w]);
}

/// Words joined by a space read back as those words.
proof fn lemma_words_join(cur: Seq<char>, w: Seq<char>)
    requires
        is_word(w),
    ensures
        words(cur + seq![' '] + w) == words(cur).push(w),
{
    let x = cur + seq![' '];
    lemma_split_append(x, w);
    assert(x.drop_last() =~= cur);
    assert(is_space(x.last())) by {
        assert(x.last() == ' ');
        assert((' ' as u32) == 0x20);
    }
    assert(split_state(x).1 =~= Seq::<char>::empty());
    assert(Seq::<char>::empty() + w =~= w);
}

proof fn lemma_words_of_lines_push(lines: Seq<Seq<char>>, l: Seq<char>)
    ensures
        words_of_lines(lines.push(l)) == words_of_lines(lines) + words(l),
{
    assert(lines.push(l).drop_last() =~= lines);
}

proof fn lemma_fill_keeps_words(ws: Seq<Seq<char>>, width: nat)
    requires
        forall|i: int| 0 <= i < ws.len() ==> is_word(#[trigger] ws[i]),
    ensures
        words_of_lines(fill_state(ws, width).0) + words(fill_state(ws, width).1) == ws,
    decreases ws.len(),
{
    if ws.len() == 0 {
        assert(words(Seq::<char>::empty()) =~= Seq::<Seq<char>>::empty());
        assert(Seq::<Seq<char>>::empty() + Seq::<Seq<char>>::empty() =~= ws);
    } else {
        let prev = ws.drop_last();
        lemma_fill_keeps_words(prev, width);
        let (lines, cur) = fill_state(prev, width);
        let w = ws.last();
        assert(is_word(w)) by {
            assert(ws[ws.len() - 1] == w);
        }
        lemma_words_of_word(w);
        assert(prev.push(w) =~= ws);
        if cur.len() == 0 {
            assert(words(cur) =~= Seq::<Seq<char>>::empty()) by {
                assert(cur =~= Seq::<char>::empty());
            }
            assert(words_of_lines(lines) + Seq::<Seq<char>>::empty() =~= words_of_lines(lines));
            assert(words_of_lines(lines) + seq![w] =~= prev.push(w));
        } else if byte_len(cur) + 1 + byte_len(w) <= width {
            lemma_words_join(cur, w);
            assert(words_of_lines(lines) + words(cur).push(w) =~= (words_of_lines(lines) + words(cur)).push(w));
        } else {
            lemma_words_of_lines_push(lines, cur);
            assert(words_of_lines(lines) + words(cur) + seq![w] =~= (words_of_lines(lines) + words(cur)).push(w));
        }
    }
}

/// Wrapping loses no word and adds none: reading the words of the lines one
/// after the other gives the words of the text, in order. A word longer than
/// the width keeps a line of its own rather than being cut.
pub proof fn wrapping_keeps_every_word(text: Seq<char>, width: nat)
    ensures
        words_of_lines(wrapped(text, width)) == words(text),
{
    assert(words_of_lines(Seq::<Seq<char>>::empty()) == Seq::<Seq<char>>::empty());
    if width == 0 {
        assert(seq![text].drop_last() =~= Seq::<Seq<char>>::empty());
        assert(Seq::<Seq<char>>::empty() + words(text) =~= words(text));
    } else {
        let ws = words(text);
        lemma_words_are_words(text);
        lemma_fill_keeps_words(ws, width);
        let (lines, cur) = fill_state(ws, width);
        if cur.len() > 0 {
            lemma_words_of_lines_push(lines, cur);
        } else {
            assert(cur =~= Seq::<char>::empty());
            assert(words(cur) =~= Seq::<Seq<char>>::empty());
            assert(words_of_lines(lines) + Seq::<Seq<char>>::empty() =~= words_of_lines(lines));
            if lines.len() == 0 {
                let one = seq![Seq::<char>::empty()];
                lemma_words_of_lines_push(Seq::empty(), Seq::<char>::empty());
                assert(Seq::<Seq<char>>::empty().push(Seq::<char>::empty()) =~= one);
                assert(Seq::<Seq<char>>::empty() + Seq::<Seq<char>>::empty() =~= Seq::<Seq<char>>::empty());
            }
        }
    }
}

/// What one choice of the setup wizard is called, and what it means.
pub type OptionList = Vec<(&'static str, &'static str)>;

/// The views of an option list.
pub open spec fn option_views(v: Seq<(&'static str, &'static str)>) -> Seq<(Seq<char>, Seq<char>)> {
    v.map_values(|p: (&'static str, &'static str)| (p.0@, p.1@))
}

/// Series details provider choices.
pub fn series_provider_options() -> (r: (OptionList, String))
    ensures
        option_views(r.0@) == seq![
            ("Jikan (MAL)"@, "Ratings, genres, episode count, synopsis"@),
            ("AniList"@, "Free, modern API, ratings + genres"@),
            ("AniDB"@, "Comprehensive database, requires client registration"@),
            ("Kitsu"@, "JSON:API, ratings + genres, no auth"@),
            ("Notify.moe"@, "Open-source tracker, ratings + genres"@),
        ],
        r.1@ == "Series details provider (ratings, genres, etc.)"@,
{
    let mut items: OptionList = Vec::new();
    items.push(("Jikan (MAL)", "Ratings, genres, episode count, synopsis"));
    items.push(("AniList", "Free, modern API, ratings + genres"));
    items.push(("AniDB", "Comprehensive database, requires client registration"));
    items.push(("Kitsu", "JSON:API, ratings + genres, no auth"));
    items.push(("Notify.moe", "Open-source tracker, ratings + genres"));
    assert(option_views(items@) =~= seq![
        ("Jikan (MAL)"@, "Ratings, genres, episode count, synopsis"@),
        ("AniList"@, "Free, modern API, ratings + genres"@),
        ("AniDB"@, "Comprehensive database, requires client registration"@),
        ("Kitsu"@, "JSON:API, ratings + genres, no auth"@),
        ("Notify.moe"@, "Open-source tracker, ratings + genres"@),
    ]);
    (items, String::from_str("Series details provider (ratings, genres, etc.)"))
}

/// Episode details provider choices.
pub fn episode_provider_options() -> (r: (OptionList, String))
    ensures
        option_views(r.0@) == seq![
            ("Jikan (MAL)"@, "Episode titles, synopses, filler flags"@),
            ("AniList"@, "Limited episode data"@),
            ("AniDB"@, "Comprehensive episode database, requires registration"@),
            ("Kitsu"@, "Episode titles + synopses, no auth"@),
            ("Notify.moe"@, "No episode details available"@),
        ],
        r.1@ == "Episode details provider (titles, synopses)"@,
{
    let mut items: OptionList = Vec::new();
    items.push(("Jikan (MAL)", "Episode titles, synopses, filler flags"));
    items.push(("AniList", "Limited episode data"));
    items.push(("AniDB", "Comprehensive episode database, requires registration"));
    items.push(("Kitsu", "Episode titles + synopses, no auth"));
    items.push(("Notify.moe", "No episode details available"));
    assert(option_views(items@) =~= seq![
        ("Jikan (MAL)"@, "Episode titles, synopses, filler flags"@),
        ("AniList"@, "Limited episode data"@),
        ("AniDB"@, "Comprehensive episode database, requires registration"@),
        ("Kitsu"@, "Episode titles + synopses, no auth"@),
        ("Notify.moe"@, "No episode details available"@),
    ]);
    (items, String::from_str("Episode details provider (titles, synopses)"))
}

/// Poster provider choices.
pub fn poster_provider_options() -> (r: (OptionList, String))
    ensures
        option_views(r.0@) == seq![
            ("Jikan (MAL)"@, "MAL cover images"@),
            ("AniList"@, "High-quality cover art"@),
            ("AniDB"@, "AniDB cover images, requires registration"@),
            ("Kitsu"@, "High-quality poster images"@),
            ("Notify.moe"@, "Notify.moe cover images"@),
        ],
        r.1@ == "Poster provider (cover images)"@,
{
    let mut items: OptionList = Vec::new();
    items.push(("Jikan (MAL)", "MAL cover images"));
    items.push(("AniList", "High-quality cover art"));
    items.push(("AniDB", "AniDB cover images, requires registration"));
    items.push(("Kitsu", "High-quality poster images"));
    items.push(("Notify.moe", "Notify.moe cover images"));
    assert(option_views(items@) =~= seq![
        ("Jikan (MAL)"@, "MAL cover images"@),
        ("AniList"@, "High-quality cover art"@),
        ("AniDB"@, "AniDB cover images, requires registration"@),
        ("Kitsu"@, "High-quality poster images"@),
        ("Notify.moe"@, "Notify.moe cover images"@),
    ]);
    (items, String::from_str("Poster provider (cover images)"))
}

/// The name and description shown for a detected player.
pub open spec fn player_entry(p: PlayerName) -> Seq<(Seq<char>, Seq<char>)> {
    match p {
        PlayerName::Mpv => seq![("mpv"@, "Lightweight, powerful media player"@)],
        PlayerName::Iina => seq![("IINA"@, "Modern macOS media player"@)],
        PlayerName::Vlc => seq![("VLC"@, "Universal media player"@)],
        PlayerName::Quicktime => seq![("QuickTime"@, "macOS built-in player"@)],
        PlayerName::Custom => Seq::empty(),
    }
}

/// The entries of the detected players, in order.
pub open spec fn player_entries(ps: Seq<PlayerName>) -> Seq<(Seq<char>, Seq<char>)>
    decreases ps.len(),
{
    if ps.len() == 0 {
        Seq::empty()
    } else {
        player_entries(ps.drop_last()) + player_entry(ps.last())
    }
}

/// Player choices: the detected players, then a custom command.
pub fn player_options(detected: &Vec<PlayerName>) -> (r: (OptionList, String))
    ensures
        option_views(r.0@) == player_entries(detected@) + seq![
            ("Custom"@, "Specify a custom player command"@),
        ],
        r.1@ == "Choose your video player"@,
{
    let mut items: OptionList = Vec::new();
    let n = detected.len();
    for i in 0..n
        invariant
            n == detected.len(),
            option_views(items@) == player_entries(detected@.take(i as int)),
    {
        assert(detected@.take(i + 1).drop_last() =~= detected@.take(i as int));
        let ghost before = items@;
        match detected[i] {
            PlayerName::Mpv => items.push(("mpv", "Lightweight, powerful media player")),
            PlayerName::Iina => items.push(("IINA", "Modern macOS media player")),
            PlayerName::Vlc => items.push(("VLC", "Universal media player")),
            PlayerName::Quicktime => items.push(("QuickTime", "macOS built-in player")),
            PlayerName::Custom => {},
        }
        assert(option_views(items@) =~= option_views(before) + player_entry(detected@[i as int]));
    }
    assert(detected@.take(n as int) =~= detected@);
    let ghost before = items@;
    items.push(("Custom", "Specify a custom player command"));
    assert(option_views(items@) =~= option_views(before) + seq![
        ("Custom"@, "Specify a custom player command"@),
    ]);
    (items, String::from_str("Choose your video player"))
}

/// Audio preference choices.
pub fn audio_mode_options() -> (r: (OptionList, String))
    ensures
        option_views(r.0@) == seq![
            ("Sub"@, "Japanese audio with subtitles"@),
            ("Dub"@, "English dubbed audio"@),
        ],
        r.1@ == "Choose your default audio preference"@,
{
    let mut items: OptionList = Vec::new();
    items.push(("Sub", "Japanese audio with subtitles"));
    items.push(("Dub", "English dubbed audio"));
    assert(option_views(items@) =~= seq![
        ("Sub"@, "Japanese audio with subtitles"@),
        ("Dub"@, "English dubbed audio"@),
    ]);
    (items, String::from_str("Choose your default audio preference"))
}

/// Minimum stream quality choices.
pub fn min_quality_options() -> (r: (OptionList, String))
    ensures
        option_views(r.0@) == seq![
            ("Any"@, "Play whatever is available"@),
            ("360p"@, "Low quality, saves bandwidth"@),
            ("480p"@, "Standard definition"@),
            ("720p"@, "HD quality"@),
            ("1080p"@, "Full HD (recommended)"@),
        ],
        r.1@ == "Minimum stream quality to play"@,
{
    let mut items: OptionList = Vec::new();
    items.push(("Any", "Play whatever is available"));
    items.push(("360p", "Low quality, saves bandwidth"));
    items.push(("480p", "Standard definition"));
    items.push(("720p", "HD quality"));
    items.push(("1080p", "Full HD (recommended)"));
    assert(option_views(items@) =~= seq![
        ("Any"@, "Play whatever is available"@),
        ("360p"@, "Low quality, saves bandwidth"@),
        ("480p"@, "Standard definition"@),
        ("720p"@, "HD quality"@),
        ("1080p"@, "Full HD (recommended)"@),
    ]);
    (items, String::from_str("Minimum stream quality to play"))
}

} // verus!
