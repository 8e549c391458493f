//! The metadata and content sources: what the library reads from their
//! responses. Requests are sent from outside the library.

use vstd::prelude::*;

use crate::json::{as_str, deref_opt, text_of, Json};
use crate::text::{chars_of, replace_chars, replace_all, string_from_chars};

pub mod allanime;
pub mod anilist;
pub mod jikan;
pub mod kitsu;
pub mod notify;

verus! {

/// The present values of `s`, in order.
pub open spec fn somes<T>(s: Seq<Option<T>>) -> Seq<T>
    decreases s.len(),
{
    if s.len() == 0 {
        Seq::empty()
    } else {
        somes(s.drop_last()) + match s.last() {
            Some(x) => seq![x],
            None => Seq::empty(),
        }
    }
}

/// The texts of the string elements of `arr`, in order.
pub open spec fn string_elems(arr: Seq<Json>) -> Seq<Seq<char>> {
    somes(arr.map_values(|j: Json| text_of(Some(j))))
}

/// `a`, or `b` when `a` is absent.
pub open spec fn or_else<T>(a: Option<T>, b: Option<T>) -> Option<T> {
    match a {
        Some(x) => Some(x),
        None => b,
    }
}

pub proof fn lemma_somes_step<T>(s: Seq<Option<T>>, i: int)
    requires
        0 <= i < s.len(),
    ensures
        somes(s.take(i + 1)) == somes(s.take(i)) + match s[i] {
            Some(x) => seq![x],
            None => Seq::empty(),
        },
{
    assert(s.take(i + 1).drop_last() =~= s.take(i));
}

/// Each value that `somes(s)` keeps is the value of an entry of `s`.
pub proof fn lemma_somes_member<T>(s: Seq<Option<T>>, i: int)
    requires
        0 <= i < somes(s).len(),
    ensures
        exists|k: int| 0 <= k < s.len() && s[k] == Some(somes(s)[i]),
    decreases s.len(),
{
    let d = s.drop_last();
    if i < somes(d).len() {
        lemma_somes_member(d, i);
        let k = choose|k: int| 0 <= k < d.len() && d[k] == Some(somes(d)[i]);
        assert(s[k] == d[k]);
        assert(somes(s)[i] == somes(d)[i]);
    } else {
        assert(s[s.len() - 1] == Some(somes(s)[i]));
    }
}

/// The texts of the string elements of a JSON array (nothing when `j` is not an array).
pub fn strings_in(arr: &Vec<Json>) -> (r: Vec<String>)
    ensures
        crate::model::anime::string_views(r@) == string_elems(arr@),
{
    let mut r: Vec<String> = Vec::new();
    let n = arr.len();
    let ghost f = |j: Json| text_of(Some(j));
    for i in 0..n
        invariant
            n == arr.len(),
            f == (|j: Json| text_of(Some(j))),
            crate::model::anime::string_views(r@) == somes(arr@.map_values(f).take(i as int)),
    {
        let ghost before = r@;
        proof {
            lemma_somes_step(arr@.map_values(f), i as int);
            assert(arr@.map_values(f).take(i + 1) =~= arr@.take(i + 1).map_values(f));
        }
        if let Some(s) = as_str(Some(&arr[i])) {
            r.push(s.clone());
            assert(crate::model::anime::string_views(r@) =~= crate::model::anime::string_views(before) + seq![s@]);
        } else {
            assert(crate::model::anime::string_views(r@) =~= crate::model::anime::string_views(before) + Seq::<Seq<char>>::empty());
        }
    }
    assert(arr@.map_values(f).take(n as int) =~= arr@.map_values(f));
    r
}

/// `s` with every occurrence of the non-empty `pat` replaced by `rep`.
pub fn replace_text(s: &String, pat: &str, rep: &str) -> (r: String)
    requires
        pat@.len() > 0,
    ensures
        r@ == replace_all(s@, pat@, rep@),
{
    let v = chars_of(s.as_str());
    let p = chars_of(pat);
    let q = chars_of(rep);
    let out = replace_chars(&v, &p, &q);
    string_from_chars(&out)
}

} // verus!
