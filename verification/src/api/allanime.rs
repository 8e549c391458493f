//! The AllAnime content source: its link cipher and the parts of its
//! responses that the player needs.

use vstd::prelude::*;

use crate::api::{or_else, somes};
use crate::json::{
    array_of, as_array, as_fixed, as_str, as_text, as_u64, at, deref_opt, fixed_of, get, text_of,
    u64_of, json_of_text, parse_json_text, Json,
};
use crate::model::anime::{anime_views, episode_views, Anime, AnimeView, Episode, EpisodeView};
use crate::model::stream::{stream_views, Quality, StreamUrl, StreamView};
use crate::number::{parse_fixed, parse_fixed_chars};
use crate::text::{chars_of, has_substring, replace_all, replace_chars, str_contains, string_from_chars};

verus! {

/// The AllAnime substitution table: the character that the hex pair
/// `hi lo` stands for, if any.
pub open spec fn cipher_char(hi: char, lo: char) -> Option<char> {
    match (hi, lo) {
        ('7', '9') => Some('A'),
        ('7', 'a') => Some('B'),
        ('7', 'b') => Some('C'),
        ('7', 'c') => Some('D'),
        ('7', 'd') => Some('E'),
        ('7', 'e') => Some('F'),
        ('7', 'f') => Some('G'),
        ('7', '0') => Some('H'),
        ('7', '1') => Some('I'),
        ('7', '2') => Some('J'),
        ('7', '3') => Some('K'),
        ('7', '4') => Some('L'),
        ('7', '5') => Some('M'),
        ('7', '6') => Some('N'),
        ('7', '7') => Some('O'),
        ('6', '8') => Some('P'),
        ('6', '9') => Some('Q'),
        ('6', 'a') => Some('R'),
        ('6', 'b') => Some('S'),
        ('6', 'c') => Some('T'),
        ('6', 'd') => Some('U'),
        ('6', 'e') => Some('V'),
        ('6', 'f') => Some('W'),
        ('6', '0') => Some('X'),
        ('6', '1') => Some('Y'),
        ('6', '2') => Some('Z'),
        ('5', '9') => Some('a'),
        ('5', 'a') => Some('b'),
        ('5', 'b') => Some('c'),
        ('5', 'c') => Some('d'),
        ('5', 'd') => Some('e'),
        ('5', 'e') => Some('f'),
        ('5', 'f') => Some('g'),
        ('5', '0') => Some('h'),
        ('5', '1') => Some('i'),
        ('5', '2') => Some('j'),
        ('5', '3') => Some('k'),
        ('5', '4') => Some('l'),
        ('5', '5') => Some('m'),
        ('5', '6') => Some('n'),
        ('5', '7') => Some('o'),
        ('4', '8') => Some('p'),
        ('4', '9') => Some('q'),
        ('4', 'a') => Some('r'),
        ('4', 'b') => Some('s'),
        ('4', 'c') => Some('t'),
        ('4', 'd') => Some('u'),
        ('4', 'e') => Some('v'),
        ('4', 'f') => Some('w'),
        ('4', '0') => Some('x'),
        ('4', '1') => Some('y'),
        ('4', '2') => Some('z'),
        ('0', '8') => Some('0'),
        ('0', '9') => Some('1'),
        ('0', 'a') => Some('2'),
        ('0', 'b') => Some('3'),
        ('0', 'c') => Some('4'),
        ('0', 'd') => Some('5'),
        ('0', 'e') => Some('6'),
        ('0', 'f') => Some('7'),
        ('0', '0') => Some('8'),
        ('0', '1') => Some('9'),
        ('1', '5') => Some('-'),
        ('1', '6') => Some('.'),
        ('6', '7') => Some('_'),
        ('4', '6') => Some('~'),
        ('0', '2') => Some(':'),
        ('1', '7') => Some('/'),
        ('0', '7') => Some('?'),
        ('1', 'b') => Some('#'),
        ('6', '3') => Some('['),
        ('6', '5') => Some(']'),
        ('7', '8') => Some('@'),
        ('1', '9') => Some('!'),
        ('1', 'c') => Some('$'),
        ('1', 'e') => Some('&'),
        ('1', '0') => Some('('),
        ('1', '1') => Some(')'),
        ('1', '2') => Some('*'),
        ('1', '3') => Some('+'),
        ('1', '4') => Some(','),
        ('0', '3') => Some(';'),
        ('0', '5') => Some('='),
        ('1', 'd') => Some('%'),
        _ => None,
    }
}

/// Looks up one hex pair in the substitution table.
fn cipher_lookup(hi: char, lo: char) -> (r: Option<char>)
    ensures
        r == cipher_char(hi, lo),
{
    match (hi, lo) {
        ('7', '9') => Some('A'),
        ('7', 'a') => Some('B'),
        ('7', 'b') => Some('C'),
        ('7', 'c') => Some('D'),
        ('7', 'd') => Some('E'),
        ('7', 'e') => Some('F'),
        ('7', 'f') => Some('G'),
        ('7', '0') => Some('H'),
        ('7', '1') => Some('I'),
        ('7', '2') => Some('J'),
        ('7', '3') => Some('K'),
        ('7', '4') => Some('L'),
        ('7', '5') => Some('M'),
        ('7', '6') => Some('N'),
        ('7', '7') => Some('O'),
        ('6', '8') => Some('P'),
        ('6', '9') => Some('Q'),
        ('6', 'a') => Some('R'),
        ('6', 'b') => Some('S'),
        ('6', 'c') => Some('T'),
        ('6', 'd') => Some('U'),
        ('6', 'e') => Some('V'),
        ('6', 'f') => Some('W'),
        ('6', '0') => Some('X'),
        ('6', '1') => Some('Y'),
        ('6', '2') => Some('Z'),
        ('5', '9') => Some('a'),
        ('5', 'a') => Some('b'),
        ('5', 'b') => Some('c'),
        ('5', 'c') => Some('d'),
        ('5', 'd') => Some('e'),
        ('5', 'e') => Some('f'),
        ('5', 'f') => Some('g'),
        ('5', '0') => Some('h'),
        ('5', '1') => Some('i'),
        ('5', '2') => Some('j'),
        ('5', '3') => Some('k'),
        ('5', '4') => Some('l'),
        ('5', '5') => Some('m'),
        ('5', '6') => Some('n'),
        ('5', '7') => Some('o'),
        ('4', '8') => Some('p'),
        ('4', '9') => Some('q'),
        ('4', 'a') => Some('r'),
        ('4', 'b') => Some('s'),
        ('4', 'c') => Some('t'),
        ('4', 'd') => Some('u'),
        ('4', 'e') => Some('v'),
        ('4', 'f') => Some('w'),
        ('4', '0') => Some('x'),
        ('4', '1') => Some('y'),
        ('4', '2') => Some('z'),
        ('0', '8') => Some('0'),
        ('0', '9') => Some('1'),
        ('0', 'a') => Some('2'),
        ('0', 'b') => Some('3'),
        ('0', 'c') => Some('4'),
        ('0', 'd') => Some('5'),
        ('0', 'e') => Some('6'),
        ('0', 'f') => Some('7'),
        ('0', '0') => Some('8'),
        ('0', '1') => Some('9'),
        ('1', '5') => Some('-'),
        ('1', '6') => Some('.'),
        ('6', '7') => Some('_'),
        ('4', '6') => Some('~'),
        ('0', '2') => Some(':'),
        ('1', '7') => Some('/'),
        ('0', '7') => Some('?'),
        ('1', 'b') => Some('#'),
        ('6', '3') => Some('['),
        ('6', '5') => Some(']'),
        ('7', '8') => Some('@'),
        ('1', '9') => Some('!'),
        ('1', 'c') => Some('$'),
        ('1', 'e') => Some('&'),
        ('1', '0') => Some('('),
        ('1', '1') => Some(')'),
        ('1', '2') => Some('*'),
        ('1', '3') => Some('+'),
        ('1', '4') => Some(','),
        ('0', '3') => Some(';'),
        ('0', '5') => Some('='),
        ('1', 'd') => Some('%'),
        _ => None,
    }
}

/// The lower-case hex digit of `v` (below 16).
pub open spec fn hex_char(v: int) -> char {
    if v < 10 {
        (('0' as int) + v) as char
    } else {
        (('a' as int) + v - 10) as char
    }
}

/// The characters a provider path is written with: letters, digits and
/// the URL punctuation `-._~:/?#[]@!$&()*+,;=%`.
pub open spec fn path_alphabet(c: char) -> bool {
    ('A' <= c && c <= 'Z') || ('a' <= c && c <= 'z') || ('0' <= c && c <= '9') || c == '-'
        || c == '.' || c == '_' || c == '~' || c == ':' || c == '/' || c == '?' || c == '#' || c
        == '[' || c == ']' || c == '@' || c == '!' || c == '$' || c == '&' || c == '(' || c == ')'
        || c == '*' || c == '+' || c == ',' || c == ';' || c == '=' || c == '%'
}

/// The code `v XOR 0x38` of a byte `v`, written with arithmetic: the XOR
/// flips bits 3 to 5, that is the three-bit field `(v / 8) % 8` becomes
/// `7 - (v / 8) % 8`.
pub open spec fn xor56_code(v: int) -> int {
    v + 56 - 16 * ((v / 8) % 8)
}

/// `xor56_code` is the bitwise XOR with 0x38.
pub proof fn xor56_code_is_xor(v: u8)
    ensures
        xor56_code(v as int) == (v ^ 0x38u8) as int,
{
    assert(v as int + 56 - 16 * ((v as int / 8) % 8) == (v ^ 0x38u8) as int) by (bit_vector);
}

/// The character the pair written `h l` in hex stands for under XOR 0x38.
pub open spec fn xor56(h: int, l: int) -> char {
    xor56_code(h * 16 + l) as char
}

/// What the cipher says of the pair written `h l` in hex: the XOR-0x38
/// character when it is in the path alphabet, nothing otherwise.
pub open spec fn xor56_pair(h: int, l: int) -> Option<char> {
    if path_alphabet(xor56(h, l)) {
        Some(xor56(h, l))
    } else {
        None
    }
}

proof fn lemma_cipher_row_0(l: int)
    requires
        0 <= l < 16,
    ensures
        cipher_char(hex_char(0), hex_char(l)) == xor56_pair(0, l),
{
    assert(cipher_char(hex_char(0), hex_char(0)) == xor56_pair(0, 0));
    assert(cipher_char(hex_char(0), hex_char(1)) == xor56_pair(0, 1));
    assert(cipher_char(hex_char(0), hex_char(2)) == xor56_pair(0, 2));
    assert(cipher_char(hex_char(0), hex_char(3)) == xor56_pair(0, 3));
    assert(cipher_char(hex_char(0), hex_char(4)) == xor56_pair(0, 4));
    assert(cipher_char(hex_char(0), hex_char(5)) == xor56_pair(0, 5));
    assert(cipher_char(hex_char(0), hex_char(6)) == xor56_pair(0, 6));
    assert(cipher_char(hex_char(0), hex_char(7)) == xor56_pair(0, 7));
    assert(cipher_char(hex_char(0), hex_char(8)) == xor56_pair(0, 8));
    assert(cipher_char(hex_char(0), hex_char(9)) == xor56_pair(0, 9));
    assert(cipher_char(hex_char(0), hex_char(10)) == xor56_pair(0, 10));
    assert(cipher_char(hex_char(0), hex_char(11)) == xor56_pair(0, 11));
    assert(cipher_char(hex_char(0), hex_char(12)) == xor56_pair(0, 12));
    assert(cipher_char(hex_char(0), hex_char(13)) == xor56_pair(0, 13));
    assert(cipher_char(hex_char(0), hex_char(14)) == xor56_pair(0, 14));
    assert(cipher_char(hex_char(0), hex_char(15)) == xor56_pair(0, 15));
}

proof fn lemma_cipher_row_1(l: int)
    requires
        0 <= l < 16,
    ensures
        cipher_char(hex_char(1), hex_char(l)) == xor56_pair(1, l),
{
    assert(cipher_char(hex_char(1), hex_char(0)) == xor56_pair(1, 0));
    assert(cipher_char(hex_char(1), hex_char(1)) == xor56_pair(1, 1));
    assert(cipher_char(hex_char(1), hex_char(2)) == xor56_pair(1, 2));
    assert(cipher_char(hex_char(1), hex_char(3)) == xor56_pair(1, 3));
    assert(cipher_char(hex_char(1), hex_char(4)) == xor56_pair(1, 4));
    assert(cipher_char(hex_char(1), hex_char(5)) == xor56_pair(1, 5));
    assert(cipher_char(hex_char(1), hex_char(6)) == xor56_pair(1, 6));
    assert(cipher_char(hex_char(1), hex_char(7)) == xor56_pair(1, 7));
    assert(cipher_char(hex_char(1), hex_char(8)) == xor56_pair(1, 8));
    assert(cipher_char(hex_char(1), hex_char(9)) == xor56_pair(1, 9));
    assert(cipher_char(hex_char(1), hex_char(10)) == xor56_pair(1, 10));
    assert(cipher_char(hex_char(1), hex_char(11)) == xor56_pair(1, 11));
    assert(cipher_char(hex_char(1), hex_char(12)) == xor56_pair(1, 12));
    assert(cipher_char(hex_char(1), hex_char(13)) == xor56_pair(1, 13));
    assert(cipher_char(hex_char(1), hex_char(14)) == xor56_pair(1, 14));
    assert(cipher_char(hex_char(1), hex_char(15)) == xor56_pair(1, 15));
}

proof fn lemma_cipher_row_2(l: int)
    requires
        0 <= l < 16,
    ensures
        cipher_char(hex_char(2), hex_char(l)) == xor56_pair(2, l),
{
    assert(cipher_char(hex_char(2), hex_char(0)) == xor56_pair(2, 0));
    assert(cipher_char(hex_char(2), hex_char(1)) == xor56_pair(2, 1));
    assert(cipher_char(hex_char(2), hex_char(2)) == xor56_pair(2, 2));
    assert(cipher_char(hex_char(2), hex_char(3)) == xor56_pair(2, 3));
    assert(cipher_char(hex_char(2), hex_char(4)) == xor56_pair(2, 4));
    assert(cipher_char(hex_char(2), hex_char(5)) == xor56_pair(2, 5));
    assert(cipher_char(hex_char(2), hex_char(6)) == xor56_pair(2, 6));
    assert(cipher_char(hex_char(2), hex_char(7)) == xor56_pair(2, 7));
    assert(cipher_char(hex_char(2), hex_char(8)) == xor56_pair(2, 8));
    assert(cipher_char(hex_char(2), hex_char(9)) == xor56_pair(2, 9));
    assert(cipher_char(hex_char(2), hex_char(10)) == xor56_pair(2, 10));
    assert(cipher_char(hex_char(2), hex_char(11)) == xor56_pair(2, 11));
    assert(cipher_char(hex_char(2), hex_char(12)) == xor56_pair(2, 12));
    assert(cipher_char(hex_char(2), hex_char(13)) == xor56_pair(2, 13));
    assert(cipher_char(hex_char(2), hex_char(14)) == xor56_pair(2, 14));
    assert(cipher_char(hex_char(2), hex_char(15)) == xor56_pair(2, 15));
}

proof fn lemma_cipher_row_3(l: int)
    requires
        0 <= l < 16,
    ensures
        cipher_char(hex_char(3), hex_char(l)) == xor56_pair(3, l),
{
    assert(cipher_char(hex_char(3), hex_char(0)) == xor56_pair(3, 0));
    assert(cipher_char(hex_char(3), hex_char(1)) == xor56_pair(3, 1));
    assert(cipher_char(hex_char(3), hex_char(2)) == xor56_pair(3, 2));
    assert(cipher_char(hex_char(3), hex_char(3)) == xor56_pair(3, 3));
    assert(cipher_char(hex_char(3), hex_char(4)) == xor56_pair(3, 4));
    assert(cipher_char(hex_char(3), hex_char(5)) == xor56_pair(3, 5));
    assert(cipher_char(hex_char(3), hex_char(6)) == xor56_pair(3, 6));
    assert(cipher_char(hex_char(3), hex_char(7)) == xor56_pair(3, 7));
    assert(cipher_char(hex_char(3), hex_char(8)) == xor56_pair(3, 8));
    assert(cipher_char(hex_char(3), hex_char(9)) == xor56_pair(3, 9));
    assert(cipher_char(hex_char(3), hex_char(10)) == xor56_pair(3, 10));
    assert(cipher_char(hex_char(3), hex_char(11)) == xor56_pair(3, 11));
    assert(cipher_char(hex_char(3), hex_char(12)) == xor56_pair(3, 12));
    assert(cipher_char(hex_char(3), hex_char(13)) == xor56_pair(3, 13));
    assert(cipher_char(hex_char(3), hex_char(14)) == xor56_pair(3, 14));
    assert(cipher_char(hex_char(3), hex_char(15)) == xor56_pair(3, 15));
}

proof fn lemma_cipher_row_4(l: int)
    requires
        0 <= l < 16,
    ensures
        cipher_char(hex_char(4), hex_char(l)) == xor56_pair(4, l),
{
    assert(cipher_char(hex_char(4), hex_char(0)) == xor56_pair(4, 0));
    assert(cipher_char(hex_char(4), hex_char(1)) == xor56_pair(4, 1));
    assert(cipher_char(hex_char(4), hex_char(2)) == xor56_pair(4, 2));
    assert(cipher_char(hex_char(4), hex_char(3)) == xor56_pair(4, 3));
    assert(cipher_char(hex_char(4), hex_char(4)) == xor56_pair(4, 4));
    assert(cipher_char(hex_char(4), hex_char(5)) == xor56_pair(4, 5));
    assert(cipher_char(hex_char(4), hex_char(6)) == xor56_pair(4, 6));
    assert(cipher_char(hex_char(4), hex_char(7)) == xor56_pair(4, 7));
    assert(cipher_char(hex_char(4), hex_char(8)) == xor56_pair(4, 8));
    assert(cipher_char(hex_char(4), hex_char(9)) == xor56_pair(4, 9));
    assert(cipher_char(hex_char(4), hex_char(10)) == xor56_pair(4, 10));
    assert(cipher_char(hex_char(4), hex_char(11)) == xor56_pair(4, 11));
    assert(cipher_char(hex_char(4), hex_char(12)) == xor56_pair(4, 12));
    assert(cipher_char(hex_char(4), hex_char(13)) == xor56_pair(4, 13));
    assert(cipher_char(hex_char(4), hex_char(14)) == xor56_pair(4, 14));
    assert(cipher_char(hex_char(4), hex_char(15)) == xor56_pair(4, 15));
}

proof fn lemma_cipher_row_5(l: int)
    requires
        0 <= l < 16,
    ensures
        cipher_char(hex_char(5), hex_char(l)) == xor56_pair(5, l),
{
    assert(cipher_char(hex_char(5), hex_char(0)) == xor56_pair(5, 0));
    assert(cipher_char(hex_char(5), hex_char(1)) == xor56_pair(5, 1));
    assert(cipher_char(hex_char(5), hex_char(2)) == xor56_pair(5, 2));
    assert(cipher_char(hex_char(5), hex_char(3)) == xor56_pair(5, 3));
    assert(cipher_char(hex_char(5), hex_char(4)) == xor56_pair(5, 4));
    assert(cipher_char(hex_char(5), hex_char(5)) == xor56_pair(5, 5));
    assert(cipher_char(hex_char(5), hex_char(6)) == xor56_pair(5, 6));
    assert(cipher_char(hex_char(5), hex_char(7)) == xor56_pair(5, 7));
    assert(cipher_char(hex_char(5), hex_char(8)) == xor56_pair(5, 8));
    assert(cipher_char(hex_char(5), hex_char(9)) == xor56_pair(5, 9));
    assert(cipher_char(hex_char(5), hex_char(10)) == xor56_pair(5, 10));
    assert(cipher_char(hex_char(5), hex_char(11)) == xor56_pair(5, 11));
    assert(cipher_char(hex_char(5), hex_char(12)) == xor56_pair(5, 12));
    assert(cipher_char(hex_char(5), hex_char(13)) == xor56_pair(5, 13));
    assert(cipher_char(hex_char(5), hex_char(14)) == xor56_pair(5, 14));
    assert(cipher_char(hex_char(5), hex_char(15)) == xor56_pair(5, 15));
}

proof fn lemma_cipher_row_6(l: int)
    requires
        0 <= l < 16,
    ensures
        cipher_char(hex_char(6), hex_char(l)) == xor56_pair(6, l),
{
    assert(cipher_char(hex_char(6), hex_char(0)) == xor56_pair(6, 0));
    assert(cipher_char(hex_char(6), hex_char(1)) == xor56_pair(6, 1));
    assert(cipher_char(hex_char(6), hex_char(2)) == xor56_pair(6, 2));
    assert(cipher_char(hex_char(6), hex_char(3)) == xor56_pair(6, 3));
    assert(cipher_char(hex_char(6), hex_char(4)) == xor56_pair(6, 4));
    assert(cipher_char(hex_char(6), hex_char(5)) == xor56_pair(6, 5));
    assert(cipher_char(hex_char(6), hex_char(6)) == xor56_pair(6, 6));
    assert(cipher_char(hex_char(6), hex_char(7)) == xor56_pair(6, 7));
    assert(cipher_char(hex_char(6), hex_char(8)) == xor56_pair(6, 8));
    assert(cipher_char(hex_char(6), hex_char(9)) == xor56_pair(6, 9));
    assert(cipher_char(hex_char(6), hex_char(10)) == xor56_pair(6, 10));
    assert(cipher_char(hex_char(6), hex_char(11)) == xor56_pair(6, 11));
    assert(cipher_char(hex_char(6), hex_char(12)) == xor56_pair(6, 12));
    assert(cipher_char(hex_char(6), hex_char(13)) == xor56_pair(6, 13));
    assert(cipher_char(hex_char(6), hex_char(14)) == xor56_pair(6, 14));
    assert(cipher_char(hex_char(6), hex_char(15)) == xor56_pair(6, 15));
}

proof fn lemma_cipher_row_7(l: int)
    requires
        0 <= l < 16,
    ensures
        cipher_char(hex_char(7), hex_char(l)) == xor56_pair(7, l),
{
    assert(cipher_char(hex_char(7), hex_char(0)) == xor56_pair(7, 0));
    assert(cipher_char(hex_char(7), hex_char(1)) == xor56_pair(7, 1));
    assert(cipher_char(hex_char(7), hex_char(2)) == xor56_pair(7, 2));
    assert(cipher_char(hex_char(7), hex_char(3)) == xor56_pair(7, 3));
    assert(cipher_char(hex_char(7), hex_char(4)) == xor56_pair(7, 4));
    assert(cipher_char(hex_char(7), hex_char(5)) == xor56_pair(7, 5));
    assert(cipher_char(hex_char(7), hex_char(6)) == xor56_pair(7, 6));
    assert(cipher_char(hex_char(7), hex_char(7)) == xor56_pair(7, 7));
    assert(cipher_char(hex_char(7), hex_char(8)) == xor56_pair(7, 8));
    assert(cipher_char(hex_char(7), hex_char(9)) == xor56_pair(7, 9));
    assert(cipher_char(hex_char(7), hex_char(10)) == xor56_pair(7, 10));
    assert(cipher_char(hex_char(7), hex_char(11)) == xor56_pair(7, 11));
    assert(cipher_char(hex_char(7), hex_char(12)) == xor56_pair(7, 12));
    assert(cipher_char(hex_char(7), hex_char(13)) == xor56_pair(7, 13));
    assert(cipher_char(hex_char(7), hex_char(14)) == xor56_pair(7, 14));
    assert(cipher_char(hex_char(7), hex_char(15)) == xor56_pair(7, 15));
}

proof fn lemma_cipher_row_8(l: int)
    requires
        0 <= l < 16,
    ensures
        cipher_char(hex_char(8), hex_char(l)) == xor56_pair(8, l),
{
    assert(cipher_char(hex_char(8), hex_char(0)) == xor56_pair(8, 0));
    assert(cipher_char(hex_char(8), hex_char(1)) == xor56_pair(8, 1));
    assert(cipher_char(hex_char(8), hex_char(2)) == xor56_pair(8, 2));
    assert(cipher_char(hex_char(8), hex_char(3)) == xor56_pair(8, 3));
    assert(cipher_char(hex_char(8), hex_char(4)) == xor56_pair(8, 4));
    assert(cipher_char(hex_char(8), hex_char(5)) == xor56_pair(8, 5));
    assert(cipher_char(hex_char(8), hex_char(6)) == xor56_pair(8, 6));
    assert(cipher_char(hex_char(8), hex_char(7)) == xor56_pair(8, 7));
    assert(cipher_char(hex_char(8), hex_char(8)) == xor56_pair(8, 8));
    assert(cipher_char(hex_char(8), hex_char(9)) == xor56_pair(8, 9));
    assert(cipher_char(hex_char(8), hex_char(10)) == xor56_pair(8, 10));
    assert(cipher_char(hex_char(8), hex_char(11)) == xor56_pair(8, 11));
    assert(cipher_char(hex_char(8), hex_char(12)) == xor56_pair(8, 12));
    assert(cipher_char(hex_char(8), hex_char(13)) == xor56_pair(8, 13));
    assert(cipher_char(hex_char(8), hex_char(14)) == xor56_pair(8, 14));
    assert(cipher_char(hex_char(8), hex_char(15)) == xor56_pair(8, 15));
}

proof fn lemma_cipher_row_9(l: int)
    requires
        0 <= l < 16,
    ensures
        cipher_char(hex_char(9), hex_char(l)) == xor56_pair(9, l),
{
    assert(cipher_char(hex_char(9), hex_char(0)) == xor56_pair(9, 0));
    assert(cipher_char(hex_char(9), hex_char(1)) == xor56_pair(9, 1));
    assert(cipher_char(hex_char(9), hex_char(2)) == xor56_pair(9, 2));
    assert(cipher_char(hex_char(9), hex_char(3)) == xor56_pair(9, 3));
    assert(cipher_char(hex_char(9), hex_char(4)) == xor56_pair(9, 4));
    assert(cipher_char(hex_char(9), hex_char(5)) == xor56_pair(9, 5));
    assert(cipher_char(hex_char(9), hex_char(6)) == xor56_pair(9, 6));
    assert(cipher_char(hex_char(9), hex_char(7)) == xor56_pair(9, 7));
    assert(cipher_char(hex_char(9), hex_char(8)) == xor56_pair(9, 8));
    assert(cipher_char(hex_char(9), hex_char(9)) == xor56_pair(9, 9));
    assert(cipher_char(hex_char(9), hex_char(10)) == xor56_pair(9, 10));
    assert(cipher_char(hex_char(9), hex_char(11)) == xor56_pair(9, 11));
    assert(cipher_char(hex_char(9), hex_char(12)) == xor56_pair(9, 12));
    assert(cipher_char(hex_char(9), hex_char(13)) == xor56_pair(9, 13));
    assert(cipher_char(hex_char(9), hex_char(14)) == xor56_pair(9, 14));
    assert(cipher_char(hex_char(9), hex_char(15)) == xor56_pair(9, 15));
}

proof fn lemma_cipher_row_10(l: int)
    requires
        0 <= l < 16,
    ensures
        cipher_char(hex_char(10), hex_char(l)) == xor56_pair(10, l),
{
    assert(cipher_char(hex_char(10), hex_char(0)) == xor56_pair(10, 0));
    assert(cipher_char(hex_char(10), hex_char(1)) == xor56_pair(10, 1));
    assert(cipher_char(hex_char(10), hex_char(2)) == xor56_pair(10, 2));
    assert(cipher_char(hex_char(10), hex_char(3)) == xor56_pair(10, 3));
    assert(cipher_char(hex_char(10), hex_char(4)) == xor56_pair(10, 4));
    assert(cipher_char(hex_char(10), hex_char(5)) == xor56_pair(10, 5));
    assert(cipher_char(hex_char(10), hex_char(6)) == xor56_pair(10, 6));
    assert(cipher_char(hex_char(10), hex_char(7)) == xor56_pair(10, 7));
    assert(cipher_char(hex_char(10), hex_char(8)) == xor56_pair(10, 8));
    assert(cipher_char(hex_char(10), hex_char(9)) == xor56_pair(10, 9));
    assert(cipher_char(hex_char(10), hex_char(10)) == xor56_pair(10, 10));
    assert(cipher_char(hex_char(10), hex_char(11)) == xor56_pair(10, 11));
    assert(cipher_char(hex_char(10), hex_char(12)) == xor56_pair(10, 12));
    assert(cipher_char(hex_char(10), hex_char(13)) == xor56_pair(10, 13));
    assert(cipher_char(hex_char(10), hex_char(14)) == xor56_pair(10, 14));
    assert(cipher_char(hex_char(10), hex_char(15)) == xor56_pair(10, 15));
}

proof fn lemma_cipher_row_11(l: int)
    requires
        0 <= l < 16,
    ensures
        cipher_char(hex_char(11), hex_char(l)) == xor56_pair(11, l),
{
    assert(cipher_char(hex_char(11), hex_char(0)) == xor56_pair(11, 0));
    assert(cipher_char(hex_char(11), hex_char(1)) == xor56_pair(11, 1));
    assert(cipher_char(hex_char(11), hex_char(2)) == xor56_pair(11, 2));
    assert(cipher_char(hex_char(11), hex_char(3)) == xor56_pair(11, 3));
    assert(cipher_char(hex_char(11), hex_char(4)) == xor56_pair(11, 4));
    assert(cipher_char(hex_char(11), hex_char(5)) == xor56_pair(11, 5));
    assert(cipher_char(hex_char(11), hex_char(6)) == xor56_pair(11, 6));
    assert(cipher_char(hex_char(11), hex_char(7)) == xor56_pair(11, 7));
    assert(cipher_char(hex_char(11), hex_char(8)) == xor56_pair(11, 8));
    assert(cipher_char(hex_char(11), hex_char(9)) == xor56_pair(11, 9));
    assert(cipher_char(hex_char(11), hex_char(10)) == xor56_pair(11, 10));
    assert(cipher_char(hex_char(11), hex_char(11)) == xor56_pair(11, 11));
    assert(cipher_char(hex_char(11), hex_char(12)) == xor56_pair(11, 12));
    assert(cipher_char(hex_char(11), hex_char(13)) == xor56_pair(11, 13));
    assert(cipher_char(hex_char(11), hex_char(14)) == xor56_pair(11, 14));
    assert(cipher_char(hex_char(11), hex_char(15)) == xor56_pair(11, 15));
}

proof fn lemma_cipher_row_12(l: int)
    requires
        0 <= l < 16,
    ensures
        cipher_char(hex_char(12), hex_char(l)) == xor56_pair(12, l),
{
    assert(cipher_char(hex_char(12), hex_char(0)) == xor56_pair(12, 0));
    assert(cipher_char(hex_char(12), hex_char(1)) == xor56_pair(12, 1));
    assert(cipher_char(hex_char(12), hex_char(2)) == xor56_pair(12, 2));
    assert(cipher_char(hex_char(12), hex_char(3)) == xor56_pair(12, 3));
    assert(cipher_char(hex_char(12), hex_char(4)) == xor56_pair(12, 4));
    assert(cipher_char(hex_char(12), hex_char(5)) == xor56_pair(12, 5));
    assert(cipher_char(hex_char(12), hex_char(6)) == xor56_pair(12, 6));
    assert(cipher_char(hex_char(12), hex_char(7)) == xor56_pair(12, 7));
    assert(cipher_char(hex_char(12), hex_char(8)) == xor56_pair(12, 8));
    assert(cipher_char(hex_char(12), hex_char(9)) == xor56_pair(12, 9));
    assert(cipher_char(hex_char(12), hex_char(10)) == xor56_pair(12, 10));
    assert(cipher_char(hex_char(12), hex_char(11)) == xor56_pair(12, 11));
    assert(cipher_char(hex_char(12), hex_char(12)) == xor56_pair(12, 12));
    assert(cipher_char(hex_char(12), hex_char(13)) == xor56_pair(12, 13));
    assert(cipher_char(hex_char(12), hex_char(14)) == xor56_pair(12, 14));
    assert(cipher_char(hex_char(12), hex_char(15)) == xor56_pair(12, 15));
}

proof fn lemma_cipher_row_13(l: int)
    requires
        0 <= l < 16,
    ensures
        cipher_char(hex_char(13), hex_char(l)) == xor56_pair(13, l),
{
    assert(cipher_char(hex_char(13), hex_char(0)) == xor56_pair(13, 0));
    assert(cipher_char(hex_char(13), hex_char(1)) == xor56_pair(13, 1));
    assert(cipher_char(hex_char(13), hex_char(2)) == xor56_pair(13, 2));
    assert(cipher_char(hex_char(13), hex_char(3)) == xor56_pair(13, 3));
    assert(cipher_char(hex_char(13), hex_char(4)) == xor56_pair(13, 4));
    assert(cipher_char(hex_char(13), hex_char(5)) == xor56_pair(13, 5));
    assert(cipher_char(hex_char(13), hex_char(6)) == xor56_pair(13, 6));
    assert(cipher_char(hex_char(13), hex_char(7)) == xor56_pair(13, 7));
    assert(cipher_char(hex_char(13), hex_char(8)) == xor56_pair(13, 8));
    assert(cipher_char(hex_char(13), hex_char(9)) == xor56_pair(13, 9));
    assert(cipher_char(hex_char(13), hex_char(10)) == xor56_pair(13, 10));
    assert(cipher_char(hex_char(13), hex_char(11)) == xor56_pair(13, 11));
    assert(cipher_char(hex_char(13), hex_char(12)) == xor56_pair(13, 12));
    assert(cipher_char(hex_char(13), hex_char(13)) == xor56_pair(13, 13));
    assert(cipher_char(hex_char(13), hex_char(14)) == xor56_pair(13, 14));
    assert(cipher_char(hex_char(13), hex_char(15)) == xor56_pair(13, 15));
}

proof fn lemma_cipher_row_14(l: int)
    requires
        0 <= l < 16,
    ensures
        cipher_char(hex_char(14), hex_char(l)) == xor56_pair(14, l),
{
    assert(cipher_char(hex_char(14), hex_char(0)) == xor56_pair(14, 0));
    assert(cipher_char(hex_char(14), hex_char(1)) == xor56_pair(14, 1));
    assert(cipher_char(hex_char(14), hex_char(2)) == xor56_pair(14, 2));
    assert(cipher_char(hex_char(14), hex_char(3)) == xor56_pair(14, 3));
    assert(cipher_char(hex_char(14), hex_char(4)) == xor56_pair(14, 4));
    assert(cipher_char(hex_char(14), hex_char(5)) == xor56_pair(14, 5));
    assert(cipher_char(hex_char(14), hex_char(6)) == xor56_pair(14, 6));
    assert(cipher_char(hex_char(14), hex_char(7)) == xor56_pair(14, 7));
    assert(cipher_char(hex_char(14), hex_char(8)) == xor56_pair(14, 8));
    assert(cipher_char(hex_char(14), hex_char(9)) == xor56_pair(14, 9));
    assert(cipher_char(hex_char(14), hex_char(10)) == xor56_pair(14, 10));
    assert(cipher_char(hex_char(14), hex_char(11)) == xor56_pair(14, 11));
    assert(cipher_char(hex_char(14), hex_char(12)) == xor56_pair(14, 12));
    assert(cipher_char(hex_char(14), hex_char(13)) == xor56_pair(14, 13));
    assert(cipher_char(hex_char(14), hex_char(14)) == xor56_pair(14, 14));
    assert(cipher_char(hex_char(14), hex_char(15)) == xor56_pair(14, 15));
}

proof fn lemma_cipher_row_15(l: int)
    requires
        0 <= l < 16,
    ensures
        cipher_char(hex_char(15), hex_char(l)) == xor56_pair(15, l),
{
    assert(cipher_char(hex_char(15), hex_char(0)) == xor56_pair(15, 0));
    assert(cipher_char(hex_char(15), hex_char(1)) == xor56_pair(15, 1));
    assert(cipher_char(hex_char(15), hex_char(2)) == xor56_pair(15, 2));
    assert(cipher_char(hex_char(15), hex_char(3)) == xor56_pair(15, 3));
    assert(cipher_char(hex_char(15), hex_char(4)) == xor56_pair(15, 4));
    assert(cipher_char(hex_char(15), hex_char(5)) == xor56_pair(15, 5));
    assert(cipher_char(hex_char(15), hex_char(6)) == xor56_pair(15, 6));
    assert(cipher_char(hex_char(15), hex_char(7)) == xor56_pair(15, 7));
    assert(cipher_char(hex_char(15), hex_char(8)) == xor56_pair(15, 8));
    assert(cipher_char(hex_char(15), hex_char(9)) == xor56_pair(15, 9));
    assert(cipher_char(hex_char(15), hex_char(10)) == xor56_pair(15, 10));
    assert(cipher_char(hex_char(15), hex_char(11)) == xor56_pair(15, 11));
    assert(cipher_char(hex_char(15), hex_char(12)) == xor56_pair(15, 12));
    assert(cipher_char(hex_char(15), hex_char(13)) == xor56_pair(15, 13));
    assert(cipher_char(hex_char(15), hex_char(14)) == xor56_pair(15, 14));
    assert(cipher_char(hex_char(15), hex_char(15)) == xor56_pair(15, 15));
}

/// The cipher table is the XOR-0x38 code on the path alphabet, for every
/// pair of lower-case hex digits.
proof fn lemma_cipher_table(h: int, l: int)
    requires
        0 <= h < 16,
        0 <= l < 16,
    ensures
        cipher_char(hex_char(h), hex_char(l)) == xor56_pair(h, l),
{
    if h == 0 {
        lemma_cipher_row_0(l);
    } else if h == 1 {
        lemma_cipher_row_1(l);
    } else if h == 2 {
        lemma_cipher_row_2(l);
    } else if h == 3 {
        lemma_cipher_row_3(l);
    } else if h == 4 {
        lemma_cipher_row_4(l);
    } else if h == 5 {
        lemma_cipher_row_5(l);
    } else if h == 6 {
        lemma_cipher_row_6(l);
    } else if h == 7 {
        lemma_cipher_row_7(l);
    } else if h == 8 {
        lemma_cipher_row_8(l);
    } else if h == 9 {
        lemma_cipher_row_9(l);
    } else if h == 10 {
        lemma_cipher_row_10(l);
    } else if h == 11 {
        lemma_cipher_row_11(l);
    } else if h == 12 {
        lemma_cipher_row_12(l);
    } else if h == 13 {
        lemma_cipher_row_13(l);
    } else if h == 14 {
        lemma_cipher_row_14(l);
    } else {
        lemma_cipher_row_15(l);
    }
}

/// The decoding of a two-character text, for every pair of lower-case hex
/// digits: the character whose code is the pair's value XOR 0x38 when that
/// character belongs to the path alphabet; otherwise the two characters
/// are kept as they are.
pub proof fn cipher_is_xor56(h: int, l: int)
    requires
        0 <= h < 16,
        0 <= l < 16,
    ensures
        decrypted(seq![hex_char(h), hex_char(l)]) == match xor56_pair(h, l) {
            Some(c) => seq![c],
            None => seq![hex_char(h), hex_char(l)],
        },
{
    lemma_cipher_table(h, l);
    let s = seq![hex_char(h), hex_char(l)];
    assert(s.skip(2) =~= Seq::<char>::empty());
    assert(s.skip(1) =~= seq![hex_char(l)]);
    assert(seq![hex_char(l)].skip(1) =~= Seq::<char>::empty());
    assert(decode_pairs(Seq::<char>::empty()) == Seq::<char>::empty());
    assert(cipher_char(s[0], s[1]) == xor56_pair(h, l));
    match xor56_pair(h, l) {
        Some(c) => {
            assert(decode_pairs(s) =~= seq![c]);
        },
        None => {
            assert(decode_pairs(seq![hex_char(l)]) =~= seq![hex_char(l)]);
            assert(decode_pairs(s) =~= seq![hex_char(h), hex_char(l)]);
        },
    }
    reveal_strlit("/clock");
    assert(decode_pairs(s).len() <= 2);
}

/// Whether `c` is a lower-case hex digit.
pub open spec fn is_lower_hex(c: char) -> bool {
    ('0' <= c && c <= '9') || ('a' <= c && c <= 'f')
}

/// Two characters that are not both lower-case hex digits decode as
/// themselves: the cipher knows no other pairs.
pub proof fn cipher_keeps_other_pairs(hi: char, lo: char)
    requires
        !(is_lower_hex(hi) && is_lower_hex(lo)),
    ensures
        decrypted(seq![hi, lo]) == seq![hi, lo],
{
    let s = seq![hi, lo];
    assert(cipher_char(hi, lo) is None);
    assert(s.skip(1) =~= seq![lo]);
    assert(seq![lo].skip(1) =~= Seq::<char>::empty());
    assert(decode_pairs(Seq::<char>::empty()) == Seq::<char>::empty());
    assert(decode_pairs(seq![lo]) =~= seq![lo]);
    assert(decode_pairs(s) =~= s);
    reveal_strlit("/clock");
}

/// Decodes `s` left to right: a pair of characters that the table knows
/// becomes its character, any other character is kept as it is.
pub open spec fn decode_pairs(s: Seq<char>) -> Seq<char>
    decreases s.len(),
{
    if s.len() == 0 {
        s
    } else if s.len() >= 2 && cipher_char(s[0], s[1]) is Some {
        seq![cipher_char(s[0], s[1])->0] + decode_pairs(s.skip(2))
    } else {
        seq![s[0]] + decode_pairs(s.skip(1))
    }
}

/// The decoded link: pairs decoded, then every "/clock" made "/clock.json".
pub open spec fn decrypted(s: Seq<char>) -> Seq<char> {
    replace_all(decode_pairs(s), "/clock"@, "/clock.json"@)
}

/// Decodes an AllAnime provider path (the part after the leading "--").
pub fn decrypt(encoded: &str) -> (r: String)
    ensures
        r@ == decrypted(encoded@),
{
    let chars = chars_of(encoded);
    let n = chars.len();
    let mut out: Vec<char> = Vec::new();
    let mut i: usize = 0;
    assert(chars@.skip(0) =~= chars@);
    assert(out@ + decode_pairs(chars@) =~= decode_pairs(chars@));
    while i < n
        invariant
            n == chars.len(),
            i <= n,
            out@ + decode_pairs(chars@.skip(i as int)) == decode_pairs(chars@),
        decreases n - i,
    {
        let ghost rest = chars@.skip(i as int);
        let ghost before = out@;
        if i + 1 < n {
            if let Some(c) = cipher_lookup(chars[i], chars[i + 1]) {
                assert(rest[0] == chars@[i as int] && rest[1] == chars@[i + 1]);
                assert(rest.skip(2) =~= chars@.skip(i + 2));
                out.push(c);
                assert(before + (seq![c] + decode_pairs(chars@.skip(i + 2))) =~= out@ + decode_pairs(chars@.skip(i + 2)));
                i = i + 2;
                continue;
            }
        }
        assert(rest[0] == chars@[i as int]);
        assert(rest.len() >= 2 ==> rest[1] == chars@[i + 1]);
        assert(rest.skip(1) =~= chars@.skip(i + 1));
        out.push(chars[i]);
        assert(before + (seq![chars@[i as int]] + decode_pairs(chars@.skip(i + 1))) =~= out@ + decode_pairs(chars@.skip(i + 1)));
        i = i + 1;
    }
    assert(chars@.skip(n as int) =~= Seq::<char>::empty());
    assert(out@ + Seq::<char>::empty() =~= out@);
    let pat = chars_of("/clock");
    let rep = chars_of("/clock.json");
    proof {
        reveal_strlit("/clock");
    }
    let replaced = replace_chars(&out, &pat, &rep);
    string_from_chars(&replaced)
}


/// The resolution named in a stream label such as "1080p" or "720P";
/// the highest one mentioned wins. (Case does not matter for digits, so the
/// label is read as it is.)
pub open spec fn quality_of(s: Seq<char>) -> Quality {
    if has_substring(s, "1080"@) {
        Quality::P1080
    } else if has_substring(s, "720"@) {
        Quality::P720
    } else if has_substring(s, "480"@) {
        Quality::P480
    } else if has_substring(s, "360"@) {
        Quality::P360
    } else {
        Quality::Unknown
    }
}

/// Reads the resolution of a stream label.
pub fn parse_quality(s: &str) -> (r: Quality)
    ensures
        r == quality_of(s@),
{
    if str_contains(s, "1080") {
        Quality::P1080
    } else if str_contains(s, "720") {
        Quality::P720
    } else if str_contains(s, "480") {
        Quality::P480
    } else if str_contains(s, "360") {
        Quality::P360
    } else {
        Quality::Unknown
    }
}

/// One search result; it needs an id and a name. The episode count is the
/// number available in `mode` ("sub" or "dub").
pub open spec fn search_edge(e: Json, mode: Seq<char>) -> Option<AnimeView> {
    let j = Some(e);
    match (text_of(at(j, "_id"@)), text_of(at(j, "name"@))) {
        (Some(id), Some(title)) => Some(AnimeView {
            id,
            title,
            synopsis: None,
            poster_url: None,
            episode_count: match u64_of(at(at(j, "availableEpisodes"@), mode)) {
                Some(n) => Some(n as u32),
                None => None,
            },
            genres: Seq::empty(),
            rating: None,
        }),
        _ => None,
    }
}

/// The anime of an AllAnime search response.
pub open spec fn search_results(resp: Json, mode: Seq<char>) -> Seq<AnimeView> {
    match array_of(at(at(at(Some(resp), "data"@), "shows"@), "edges"@)) {
        Some(edges) => somes(edges.map_values(|e: Json| search_edge(e, mode))),
        None => Seq::empty(),
    }
}

fn parse_edge(e: &Json, mode: &str) -> (r: Option<Anime>)
    ensures
        match r {
            Some(a) => search_edge(*e, mode@) == Some(a@),
            None => search_edge(*e, mode@) is None,
        },
{
    let j = Some(e);
    let id = match as_text(get(j, "_id")) {
        Some(id) => id,
        None => {
            return None;
        },
    };
    let title = match as_text(get(j, "name")) {
        Some(t) => t,
        None => {
            return None;
        },
    };
    let episode_count = match as_u64(get(get(j, "availableEpisodes"), mode)) {
        Some(n) => Some(n as u32),
        None => None,
    };
    let a = Anime {
        id,
        title,
        synopsis: None,
        poster_url: None,
        episode_count,
        genres: Vec::new(),
        rating: None,
    };
    assert(crate::model::anime::string_views(a.genres@) =~= Seq::<Seq<char>>::empty());
    Some(a)
}

/// Reads the anime of an AllAnime search response for audio `mode`.
pub fn parse_search(resp: &Json, mode: &str) -> (r: Vec<Anime>)
    ensures
        anime_views(r@) == search_results(*resp, mode@),
{
    let edges = match as_array(get(get(get(Some(resp), "data"), "shows"), "edges")) {
        Some(edges) => edges,
        None => {
            return Vec::new();
        },
    };
    let mut r: Vec<Anime> = Vec::new();
    let n = edges.len();
    let ghost f = |e: Json| search_edge(e, mode@);
    for i in 0..n
        invariant
            n == edges.len(),
            f == (|e: Json| search_edge(e, mode@)),
            anime_views(r@) == somes(edges@.map_values(f).take(i as int)),
    {
        let ghost before = r@;
        proof {
            crate::api::lemma_somes_step(edges@.map_values(f), i as int);
        }
        match parse_edge(&edges[i], mode) {
            Some(a) => {
                r.push(a);
                assert(anime_views(r@) =~= anime_views(before) + seq![a@]);
            },
            None => {
                assert(anime_views(r@) =~= anime_views(before) + Seq::<AnimeView>::empty());
            },
        }
    }
    assert(edges@.map_values(f).take(n as int) =~= edges@.map_values(f));
    r
}

/// An episode entry of AllAnime's episode list: a number, or the text of one.
pub open spec fn listed_number(v: Json) -> Option<i64> {
    match v {
        Json::Str(s) => parse_fixed(s@, 3),
        Json::Number(_) => fixed_of(Some(v), 3),
        _ => None,
    }
}

/// The episode numbers listed for `mode`, in the order given.
pub open spec fn listed_numbers(resp: Json, mode: Seq<char>) -> Seq<i64> {
    let detail = at(at(at(Some(resp), "data"@), "show"@), "availableEpisodesDetail"@);
    match array_of(at(detail, mode)) {
        Some(items) => somes(items.map_values(|v: Json| listed_number(v))),
        None => Seq::empty(),
    }
}

/// Ascending order.
pub open spec fn ascending(s: Seq<i64>) -> bool {
    forall|i: int, j: int| 0 <= i <= j < s.len() ==> s[i] <= s[j]
}

/// An episode known only by its number.
pub open spec fn bare_episode(n: i64) -> EpisodeView {
    EpisodeView { number: n, title: None, synopsis: None, is_filler: false, aired: None }
}

fn read_number(v: &Json) -> (r: Option<i64>)
    ensures
        r == listed_number(*v),
{
    match v {
        Json::Str(s) => {
            let c = chars_of(s.as_str());
            parse_fixed_chars(&c, 3)
        },
        Json::Number(_) => as_fixed(Some(v), 3),
        _ => None,
    }
}

/// Inserts `x` into the ascending `r` after the elements not above it.
fn insert_sorted(r: &mut Vec<i64>, x: i64)
    requires
        ascending(old(r)@),
    ensures
        ascending(final(r)@),
        final(r)@.to_multiset() == old(r)@.to_multiset().insert(x),
{
    let n = r.len();
    let mut p: usize = 0;
    while p < n && r[p] <= x
        invariant
            n == r.len(),
            p <= n,
            forall|j: int| 0 <= j < p ==> r@[j] <= x,
        decreases n - p,
    {
        p = p + 1;
    }
    let ghost before = r@;
    r.insert(p, x);
    proof {
        broadcast use vstd::seq_lib::group_to_multiset_ensures;

        assert(r@.remove(p as int) =~= before);
        assert(r@[p as int] == x);
        assert(r@.to_multiset().count(x) > 0);
        assert(before.to_multiset() =~= r@.to_multiset().remove(x));
        assert(r@.to_multiset() =~= before.to_multiset().insert(x));
        assert forall|i: int, j: int| 0 <= i <= j < r@.len() implies r@[i] <= r@[j] by {
            if i < p && j < p {
            } else if i < p && j == p {
            } else if i < p {
                assert(r@[j] == before[j - 1]);
            } else if i == p && j == p {
            } else if i == p {
                assert(r@[j] == before[j - 1]);
                assert(before[p as int] <= before[j - 1]);
            } else {
                assert(r@[i] == before[i - 1]);
                assert(r@[j] == before[j - 1]);
            }
        }
    }
}

/// Reads the episode list of a show for audio `mode`, in ascending order.
pub fn parse_episodes(resp: &Json, mode: &str) -> (r: Vec<Episode>)
    ensures
        ({
            let nums = episode_views(r@).map_values(|e: EpisodeView| e.number);
            &&& ascending(nums)
            &&& nums.to_multiset() == listed_numbers(*resp, mode@).to_multiset()
            &&& forall|i: int| 0 <= i < r@.len() ==> (#[trigger] r@[i])@ == bare_episode(r@[i].number)
        }),
{
    let detail = get(get(get(Some(resp), "data"), "show"), "availableEpisodesDetail");
    let mut sorted: Vec<i64> = Vec::new();
    let ghost f = |v: Json| listed_number(v);
    let ghost listed = listed_numbers(*resp, mode@);
    if let Some(items) = as_array(get(detail, mode)) {
        let n = items.len();
        for i in 0..n
            invariant
                n == items.len(),
                f == (|v: Json| listed_number(v)),
                ascending(sorted@),
                sorted@.to_multiset() == somes(items@.map_values(f).take(i as int)).to_multiset(),
        {
            proof {
                crate::api::lemma_somes_step(items@.map_values(f), i as int);
            }
            let ghost prev = somes(items@.map_values(f).take(i as int));
            match read_number(&items[i]) {
                Some(x) => {
                    insert_sorted(&mut sorted, x);
                    proof {
                        broadcast use vstd::seq_lib::group_to_multiset_ensures;

                        assert(prev + seq![x] == prev.push(x));
                    }
                },
                None => {
                    assert(prev + Seq::<i64>::empty() =~= prev);
                },
            }
        }
        assert(items@.map_values(f).take(n as int) =~= items@.map_values(f));
    } else {
        assert(sorted@ =~= Seq::<i64>::empty());
    }
    let mut r: Vec<Episode> = Vec::new();
    let m = sorted.len();
    for k in 0..m
        invariant
            m == sorted.len(),
            r@.len() == k,
            forall|i: int| 0 <= i < k ==> (#[trigger] r@[i])@ == bare_episode(sorted@[i]),
    {
        r.push(Episode { number: sorted[k], title: None, synopsis: None, is_filler: false, aired: None });
    }
    assert(episode_views(r@).map_values(|e: EpisodeView| e.number) =~= sorted@);
    r
}

/// Where a source link points: the link decoded when it starts with "--".
pub open spec fn source_path(raw: Seq<char>) -> Seq<char> {
    if raw.len() >= 2 && raw[0] == '-' && raw[1] == '-' {
        decrypted(raw.skip(2))
    } else {
        raw
    }
}

/// One entry of an episode's `sourceUrls`: its path and provider name.
pub open spec fn source(src: Json) -> Option<(Seq<char>, Seq<char>)> {
    let j = Some(src);
    match text_of(at(j, "sourceUrl"@)) {
        Some(raw) => Some(
            (
                source_path(raw),
                match text_of(at(j, "sourceName"@)) {
                    Some(name) => name,
                    None => "unknown"@,
                },
            ),
        ),
        None => None,
    }
}

/// The sources of an AllAnime episode response.
pub open spec fn sources(resp: Json) -> Seq<(Seq<char>, Seq<char>)> {
    match array_of(at(at(at(Some(resp), "data"@), "episode"@), "sourceUrls"@)) {
        Some(items) => somes(items.map_values(|s: Json| source(s))),
        None => Seq::empty(),
    }
}

/// The views of a list of text pairs.
pub open spec fn pair_views(v: Seq<(String, String)>) -> Seq<(Seq<char>, Seq<char>)> {
    v.map_values(|p: (String, String)| (p.0@, p.1@))
}

fn read_source(src: &Json) -> (r: Option<(String, String)>)
    ensures
        match r {
            Some(p) => source(*src) == Some((p.0@, p.1@)),
            None => source(*src) is None,
        },
{
    let j = Some(src);
    let raw = match as_str(get(j, "sourceUrl")) {
        Some(raw) => raw,
        None => {
            return None;
        },
    };
    let provider = match as_text(get(j, "sourceName")) {
        Some(name) => name,
        None => String::from_str("unknown"),
    };
    let c = chars_of(raw.as_str());
    let path = if c.len() >= 2 && c[0] == '-' && c[1] == '-' {
        let mut rest: Vec<char> = Vec::new();
        let n = c.len();
        for i in 2..n
            invariant
                n == c.len(),
                2 <= n,
                rest@ == c@.subrange(2, i as int),
        {
            rest.push(c[i]);
            assert(c@.subrange(2, i + 1) == c@.subrange(2, i as int).push(c@[i as int]));
        }
        assert(rest@ =~= c@.skip(2));
        let encoded = string_from_chars(&rest);
        decrypt(encoded.as_str())
    } else {
        raw.clone()
    };
    Some((path, provider))
}

/// Reads the provider sources of an AllAnime episode response: where each
/// points (decoded when needed) and the provider's name.
pub fn parse_sources(resp: &Json) -> (r: Vec<(String, String)>)
    ensures
        pair_views(r@) == sources(*resp),
{
    let items = match as_array(get(get(get(Some(resp), "data"), "episode"), "sourceUrls")) {
        Some(items) => items,
        None => {
            return Vec::new();
        },
    };
    let mut r: Vec<(String, String)> = Vec::new();
    let n = items.len();
    let ghost f = |s: Json| source(s);
    for i in 0..n
        invariant
            n == items.len(),
            f == (|s: Json| source(s)),
            pair_views(r@) == somes(items@.map_values(f).take(i as int)),
    {
        let ghost before = r@;
        proof {
            crate::api::lemma_somes_step(items@.map_values(f), i as int);
        }
        match read_source(&items[i]) {
            Some(p) => {
                let ghost pv = (p.0@, p.1@);
                r.push(p);
                assert(pair_views(r@) =~= pair_views(before) + seq![pv]);
            },
            None => {
                assert(pair_views(r@) =~= pair_views(before) + Seq::<(Seq<char>, Seq<char>)>::empty());
            },
        }
    }
    assert(items@.map_values(f).take(n as int) =~= items@.map_values(f));
    r
}

/// The URL a provider path is fetched from.
pub open spec fn provider_url_of(path: Seq<char>) -> Seq<char> {
    if path.len() >= 4 && path.take(4) == "http"@ {
        path
    } else {
        "https://allanime.day"@ + path
    }
}

/// The URL to fetch a provider path from: the path itself when it is a
/// full URL, else a path on allanime.day.
pub fn provider_url(path: &String) -> (r: String)
    ensures
        r@ == provider_url_of(path@),
{
    let c = chars_of(path.as_str());
    let http = chars_of("http");
    proof {
        reveal_strlit("http");
    }
    if crate::text::occurs_at_exec(&c, &http, 0) {
        assert(c@.subrange(0, 4) =~= c@.take(4));
        path.clone()
    } else {
        assert(c@.len() >= 4 ==> c@.subrange(0, 4) =~= c@.take(4));
        String::from_str("https://allanime.day").concat(path.as_str())
    }
}

/// One entry of a provider's `links` array.
pub open spec fn provider_link(l: Json, top: Json, provider: Seq<char>) -> Option<StreamView> {
    let j = Some(l);
    match text_of(at(j, "link"@)) {
        Some(url) => Some(StreamView {
            url,
            quality: match text_of(at(j, "resolutionStr"@)) {
                Some(r) => quality_of(r),
                None => Quality::Unknown,
            },
            provider,
            referer: or_else(text_of(at(at(j, "headers"@), "Referer"@)), text_of(at(Some(top), "Referer"@))),
        }),
        None => None,
    }
}

/// The streams a provider answers with: each entry of `links` that has a
/// link, then the `hls` stream if there is one.
pub open spec fn provider_streams(j: Json, provider: Seq<char>) -> Seq<StreamView> {
    let links = match array_of(at(Some(j), "links"@)) {
        Some(items) => somes(items.map_values(|l: Json| provider_link(l, j, provider))),
        None => Seq::empty(),
    };
    links + match text_of(at(Some(j), "hls"@)) {
        Some(h) => seq![
            StreamView {
                url: h,
                quality: Quality::Unknown,
                provider,
                referer: text_of(at(Some(j), "Referer"@)),
            },
        ],
        None => Seq::empty(),
    }
}

/// When a provider answers with an `hls` playlist, its last stream is that
/// playlist, of unknown quality, sent with the answer's top-level `Referer`.
pub proof fn hls_stream_uses_top_referer(j: Json, provider: Seq<char>)
    requires
        text_of(at(Some(j), "hls"@)) is Some,
    ensures
        provider_streams(j, provider).len() > 0,
        provider_streams(j, provider).last() == (StreamView {
            url: text_of(at(Some(j), "hls"@))->0,
            quality: Quality::Unknown,
            provider,
            referer: text_of(at(Some(j), "Referer"@)),
        }),
{
}

/// Every stream of a provider answer names that provider, and when the
/// answer has a top-level `Referer` every stream is sent with a referer: a
/// link takes its own header's `Referer`, the answer's one otherwise.
pub proof fn provider_streams_carry_referer(j: Json, provider: Seq<char>, i: int)
    requires
        0 <= i < provider_streams(j, provider).len(),
    ensures
        provider_streams(j, provider)[i].provider == provider,
        text_of(at(Some(j), "Referer"@)) is Some ==> provider_streams(j, provider)[i].referer is Some,
{
    let links = match array_of(at(Some(j), "links"@)) {
        Some(items) => somes(items.map_values(|l: Json| provider_link(l, j, provider))),
        None => Seq::empty(),
    };
    if i < links.len() {
        let items = array_of(at(Some(j), "links"@))->0;
        let f = |l: Json| provider_link(l, j, provider);
        crate::api::lemma_somes_member(items.map_values(f), i);
        let k = choose|k: int|
            0 <= k < items.map_values(f).len() && items.map_values(f)[k] == Some(
                somes(items.map_values(f))[i],
            );
        assert(provider_link(items[k], j, provider) == Some(links[i]));
        assert(provider_streams(j, provider)[i] == links[i]);
    }
}

/// Each stream of a provider answer is either its `hls` playlist, as the
/// last stream, or comes from an entry of its `links` array whose `link` is
/// the stream's URL; such a stream is sent with the entry's own
/// `headers.Referer`, and with the answer's top-level `Referer` only when
/// the entry has none.
pub proof fn provider_streams_come_from_answer(j: Json, provider: Seq<char>, i: int)
    requires
        0 <= i < provider_streams(j, provider).len(),
    ensures
        ({
            let streams = provider_streams(j, provider);
            let s = streams[i];
            let top = text_of(at(Some(j), "Referer"@));
            let items = array_of(at(Some(j), "links"@));
            ||| (i == streams.len() - 1 && text_of(at(Some(j), "hls"@)) == Some(s.url) && s.referer
                == top)
            ||| (items is Some && exists|k: int|
                #![trigger items->0[k]]
                0 <= k < items->0.len() && text_of(at(Some(items->0[k]), "link"@)) == Some(s.url)
                    && s.referer == or_else(
                    text_of(at(at(Some(items->0[k]), "headers"@), "Referer"@)),
                    top,
                ))
        }),
{
    let links = match array_of(at(Some(j), "links"@)) {
        Some(items) => somes(items.map_values(|l: Json| provider_link(l, j, provider))),
        None => Seq::empty(),
    };
    if i < links.len() {
        let items = array_of(at(Some(j), "links"@))->0;
        let f = |l: Json| provider_link(l, j, provider);
        crate::api::lemma_somes_member(items.map_values(f), i);
        let k = choose|k: int|
            0 <= k < items.map_values(f).len() && items.map_values(f)[k] == Some(
                somes(items.map_values(f))[i],
            );
        assert(provider_link(items[k], j, provider) == Some(links[i]));
        assert(provider_streams(j, provider)[i] == links[i]);
    }
}

fn read_link(l: &Json, top: &Json, provider: &str) -> (r: Option<StreamUrl>)
    ensures
        match r {
            Some(s) => provider_link(*l, *top, provider@) == Some(s@),
            None => provider_link(*l, *top, provider@) is None,
        },
{
    let j = Some(l);
    let url = match as_text(get(j, "link")) {
        Some(u) => u,
        None => {
            return None;
        },
    };
    let quality = match as_str(get(j, "resolutionStr")) {
        Some(r) => parse_quality(r.as_str()),
        None => Quality::Unknown,
    };
    let referer = match as_text(get(get(j, "headers"), "Referer")) {
        Some(r) => Some(r),
        None => as_text(get(Some(top), "Referer")),
    };
    Some(StreamUrl { url, quality, provider: String::from_str(provider), referer })
}

/// Reads the streams of a provider response; `json` is `None` when the
/// response was not JSON, which gives no streams.
pub fn parse_provider_links(json: Option<&Json>, provider: &str) -> (r: Vec<StreamUrl>)
    ensures
        stream_views(r@) == match json {
            Some(j) => provider_streams(*j, provider@),
            None => Seq::empty(),
        },
{
    let j = match json {
        Some(j) => j,
        None => {
            return Vec::new();
        },
    };
    let mut r: Vec<StreamUrl> = Vec::new();
    if let Some(items) = as_array(get(Some(j), "links")) {
        let n = items.len();
        let ghost f = |l: Json| provider_link(l, *j, provider@);
        for i in 0..n
            invariant
                n == items.len(),
                f == (|l: Json| provider_link(l, *j, provider@)),
                stream_views(r@) == somes(items@.map_values(f).take(i as int)),
        {
            let ghost before = r@;
            proof {
                crate::api::lemma_somes_step(items@.map_values(f), i as int);
            }
            match read_link(&items[i], j, provider) {
                Some(s) => {
                    r.push(s);
                    assert(stream_views(r@) =~= stream_views(before) + seq![s@]);
                },
                None => {
                    assert(stream_views(r@) =~= stream_views(before) + Seq::<StreamView>::empty());
                },
            }
        }
        assert(items@.map_values(f).take(n as int) =~= items@.map_values(f));
    } else {
        assert(stream_views(r@) =~= Seq::<StreamView>::empty());
    }
    let ghost links = stream_views(r@);
    if let Some(h) = as_text(get(Some(j), "hls")) {
        let s = StreamUrl {
            url: h,
            quality: Quality::Unknown,
            provider: String::from_str(provider),
            referer: as_text(get(Some(j), "Referer")),
        };
        let ghost sv = s@;
        r.push(s);
        assert(stream_views(r@) =~= links + seq![sv]);
    } else {
        assert(stream_views(r@) =~= links + Seq::<StreamView>::empty());
    }
    r
}


/// Reads the streams of a provider answer given as its body text: the text
/// decoded as JSON, then its links; a body that is not JSON gives no streams.
pub fn provider_links_from_body(body: &str, provider: &str) -> (r: Vec<StreamUrl>)
    ensures
        stream_views(r@) == match json_of_text(body@) {
            Some(j) => provider_streams(j, provider@),
            None => Seq::empty(),
        },
{
    let json = parse_json_text(body);
    parse_provider_links(json.as_ref(), provider)
}

} // verus!
