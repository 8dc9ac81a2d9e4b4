//! Text normalizer: collapses whitespace and line-wrap noise into a
//! canonical single-line page text, and proves that doing so twice is the
//! same as doing it once.

use vstd::prelude::*;

use crate::chars::{chars_of, is_space, space_char, string_of};
use crate::pipeline::PdfProcessor;

verus! {

/// One left-to-right pass over `s`: whitespace runs become a single `' '`,
/// leading and trailing whitespace is dropped. `acc` is the output built so
/// far and `pending` records that a separating space is owed before the next
/// non-whitespace character.
pub open spec fn norm_rec(s: Seq<char>, acc: Seq<char>, pending: bool) -> Seq<char>
    decreases s.len(),
{
    if s.len() == 0 {
        acc
    } else if is_space(s[0]) {
        norm_rec(s.drop_first(), acc, acc.len() > 0)
    } else if pending {
        norm_rec(s.drop_first(), acc.push(' ').push(s[0]), false)
    } else {
        norm_rec(s.drop_first(), acc.push(s[0]), false)
    }
}

/// Canonical text: every line trimmed, empty lines dropped, non-empty lines
/// joined by single spaces, whitespace runs collapsed to one space.
pub open spec fn normalize_spec(s: Seq<char>) -> Seq<char> {
    norm_rec(s, Seq::empty(), false)
}

/// Shape of canonical text: every whitespace character is a single `' '`
/// standing strictly between non-whitespace characters.
pub open spec fn canonical(s: Seq<char>) -> bool {
    forall|i: int|
        0 <= i < s.len() && is_space(#[trigger] s[i]) ==> s[i] == ' ' && 0 < i && i + 1 < s.len()
            && !is_space(s[i + 1])
}

proof fn lemma_norm_rec_canonical(s: Seq<char>, acc: Seq<char>, pending: bool)
    requires
        canonical(acc),
        pending ==> acc.len() > 0,
    ensures
        canonical(norm_rec(s, acc, pending)),
    decreases s.len(),
{
    if s.len() == 0 {
    } else if is_space(s[0]) {
        lemma_norm_rec_canonical(s.drop_first(), acc, acc.len() > 0);
    } else if pending {
        let acc2 = acc.push(' ').push(s[0]);
        assert(canonical(acc2)) by {
            assert forall|i: int|
                0 <= i < acc2.len() && is_space(#[trigger] acc2[i]) implies acc2[i] == ' ' && 0 < i
                && i + 1 < acc2.len() && !is_space(acc2[i + 1]) by {
                if i < acc.len() {
                    assert(acc2[i] == acc[i]);
                    assert(acc2[i + 1] == acc[i + 1]);
                }
            }
        }
        lemma_norm_rec_canonical(s.drop_first(), acc2, false);
    } else {
        let acc2 = acc.push(s[0]);
        assert(canonical(acc2)) by {
            assert forall|i: int|
                0 <= i < acc2.len() && is_space(#[trigger] acc2[i]) implies acc2[i] == ' ' && 0 < i
                && i + 1 < acc2.len() && !is_space(acc2[i + 1]) by {
                if i < acc.len() {
                    assert(acc2[i] == acc[i]);
                    assert(acc2[i + 1] == acc[i + 1]);
                }
            }
        }
        lemma_norm_rec_canonical(s.drop_first(), acc2, false);
    }
}

proof fn lemma_norm_rec_fixed(s: Seq<char>, acc: Seq<char>)
    requires
        forall|i: int|
            0 <= i < s.len() && is_space(#[trigger] s[i]) ==> s[i] == ' ' && i + 1 < s.len()
                && !is_space(s[i + 1]),
        s.len() > 0 && is_space(s[0]) ==> acc.len() > 0,
    ensures
        norm_rec(s, acc, false) == acc + s,
    decreases s.len(),
{
    if s.len() == 0 {
        assert(acc + s =~= acc);
    } else if is_space(s[0]) {
        // `s` is `' '` then a non-whitespace character: both are reproduced.
        let acc2 = acc.push(' ').push(s[1]);
        assert(norm_rec(s, acc, false) == norm_rec(s.drop_first(), acc, true));
        assert(s.drop_first()[0] == s[1]);
        assert(!is_space(s[1]));
        assert(norm_rec(s.drop_first(), acc, true) == norm_rec(
            s.drop_first().drop_first(),
            acc2,
            false,
        ));
        lemma_norm_rec_fixed(s.drop_first().drop_first(), acc2);
        assert(acc2 + s.drop_first().drop_first() =~= acc + s);
    } else {
        let acc2 = acc.push(s[0]);
        lemma_norm_rec_fixed(s.drop_first(), acc2);
        assert(acc2 + s.drop_first() =~= acc + s);
    }
}

/// Normalizing is idempotent: canonical text is a fixed point.
pub proof fn lemma_normalize_idempotent(s: Seq<char>)
    ensures
        normalize_spec(normalize_spec(s)) == normalize_spec(s),
{
    lemma_norm_rec_canonical(s, Seq::empty(), false);
    let n = normalize_spec(s);
    lemma_norm_rec_fixed(n, Seq::empty());
    assert(Seq::<char>::empty() + n =~= n);
}

/// Canonical form of a character vector.
pub fn normalize_vec(v: &Vec<char>) -> (r: Vec<char>)
    ensures
        r@ == normalize_spec(v@),
{
    assert(v@.subrange(0, v@.len() as int) =~= v@);
    let mut out: Vec<char> = Vec::new();
    let mut pending: bool = false;
    let mut i: usize = 0;
    while i < v.len()
        invariant
            i <= v.len(),
            pending ==> out@.len() > 0,
            norm_rec(v@.subrange(i as int, v@.len() as int), out@, pending) == normalize_spec(v@),
        decreases v.len() - i,
    {
        let ghost rest = v@.subrange(i as int, v@.len() as int);
        assert(rest.drop_first() =~= v@.subrange(i as int + 1, v@.len() as int));
        let c = v[i];
        if space_char(c) {
            pending = out.len() > 0;
        } else {
            if pending {
                out.push(' ');
            }
            out.push(c);
            pending = false;
        }
        i = i + 1;
    }
    assert(v@.subrange(v@.len() as int, v@.len() as int) =~= Seq::<char>::empty());
    out
}

impl PdfProcessor {
    /// Canonical page text: lines trimmed, empty lines dropped, the rest
    /// joined with single spaces, whitespace runs collapsed to one space.
    pub fn clean_extracted_text(raw_text: &str) -> (r: String)
        ensures
            r@ == normalize_spec(raw_text@),
    {
        let v = chars_of(raw_text);
        let out = normalize_vec(&v);
        string_of(&out)
    }
}

} // verus!
