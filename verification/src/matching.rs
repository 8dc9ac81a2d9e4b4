//! Substring containment of keywords in lowercased text: the matching
//! primitive behind the relevance filter and the heading scorer. Keyword
//! containment is substring containment, so a keyword matches inside a
//! longer word; that looseness is part of the design.

use vstd::prelude::*;

use crate::chars::{chars_of, lower_seq};

verus! {

/// `needle` occurs contiguously inside `hay`.
pub open spec fn contains_seq(hay: Seq<char>, needle: Seq<char>) -> bool {
    exists|i: int|
        0 <= i <= hay.len() - needle.len() && #[trigger] hay.subrange(i, i + needle.len())
            == needle
}

/// Some keyword of `kws` occurs inside `text`.
pub open spec fn matches_any(kws: Seq<Seq<char>>, text: Seq<char>) -> bool {
    exists|i: int| 0 <= i < kws.len() && contains_seq(text, kws[i])
}

/// How many keywords of `kws` occur inside `text` (each counted once).
pub open spec fn count_matches(kws: Seq<Seq<char>>, text: Seq<char>) -> nat
    decreases kws.len(),
{
    if kws.len() == 0 {
        0
    } else {
        (if contains_seq(text, kws[0]) {
            1nat
        } else {
            0nat
        }) + count_matches(kws.drop_first(), text)
    }
}

/// The views of a keyword list.
pub open spec fn kw_views(kws: Seq<String>) -> Seq<Seq<char>> {
    kws.map_values(|k: String| k@)
}

/// At most every keyword can match.
pub proof fn lemma_count_matches_bound(kws: Seq<Seq<char>>, t: Seq<char>)
    ensures
        count_matches(kws, t) <= kws.len(),
    decreases kws.len(),
{
    if kws.len() > 0 {
        lemma_count_matches_bound(kws.drop_first(), t);
    }
}

/// Naive substring search.
pub fn contains_sub(hay: &Vec<char>, needle: &Vec<char>) -> (r: bool)
    ensures
        r == contains_seq(hay@, needle@),
{
    let n = needle.len();
    if n > hay.len() {
        return false;
    }
    let mut i: usize = 0;
    while i <= hay.len() - n
        invariant
            n <= hay.len(),
            i <= hay.len() - n + 1,
            forall|k: int| 0 <= k < i ==> #[trigger] hay@.subrange(k, k + n as int) != needle@,
        decreases hay.len() - n - i + 1,
    {
        let mut j: usize = 0;
        while j < n && hay[i + j] == needle[j]
            invariant
                i + n <= hay.len(),
                j <= n,
                forall|k: int| 0 <= k < j ==> hay@[i + k] == needle@[k],
            decreases n - j,
        {
            j = j + 1;
        }
        if j == n {
            assert(hay@.subrange(i as int, i + n as int) =~= needle@);
            return true;
        }
        assert(hay@.subrange(i as int, i + n as int) != needle@) by {
            assert(hay@.subrange(i as int, i + n as int)[j as int] == hay@[i + j]);
        }
        i = i + 1;
    }
    false
}

/// Whether some keyword occurs in `text`.
pub fn any_keyword_in(kws: &Vec<String>, text: &Vec<char>) -> (r: bool)
    ensures
        r == matches_any(kw_views(kws@), text@),
{
    let mut i: usize = 0;
    while i < kws.len()
        invariant
            i <= kws.len(),
            forall|k: int| 0 <= k < i ==> !contains_seq(text@, kw_views(kws@)[k]),
        decreases kws.len() - i,
    {
        let kc = chars_of(kws[i].as_str());
        if contains_sub(text, &kc) {
            assert(kw_views(kws@)[i as int] == kc@);
            return true;
        }
        i = i + 1;
    }
    false
}

/// How many keywords occur in `text`.
pub fn count_keywords_in(kws: &Vec<String>, text: &Vec<char>) -> (r: usize)
    ensures
        r == count_matches(kw_views(kws@), text@),
        r <= kws@.len(),
{
    let mut i: usize = kws.len();
    let mut cnt: usize = 0;
    assert(kw_views(kws@).skip(kws@.len() as int) =~= Seq::<Seq<char>>::empty());
    while i > 0
        invariant
            i <= kws.len(),
            cnt == count_matches(kw_views(kws@).skip(i as int), text@),
            cnt <= kws.len() - i,
        decreases i,
    {
        assert(kw_views(kws@).skip(i as int - 1).drop_first() =~= kw_views(kws@).skip(i as int));
        assert(kw_views(kws@).skip(i as int - 1)[0] == kw_views(kws@)[i as int - 1]);
        let kc = chars_of(kws[i - 1].as_str());
        assert(kc@ == kw_views(kws@)[i as int - 1]);
        if contains_sub(text, &kc) {
            cnt = cnt + 1;
        }
        i = i - 1;
    }
    assert(kw_views(kws@).skip(0) =~= kw_views(kws@));
    cnt
}

/// Lowercased characters of a string, for matching.
pub fn lower_chars_of(s: &str) -> (r: Vec<char>)
    ensures
        r@ == lower_seq(s@),
{
    let v = chars_of(s);
    crate::chars::lower_chars(&v)
}

} // verus!
