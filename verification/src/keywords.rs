//! Keyword extractor: turns free-text persona/task descriptions into a
//! duplicate-free vocabulary of lowercased, alphanumeric-trimmed tokens
//! longer than two characters.

use vstd::prelude::*;

use crate::chars::{alnum_char, chars_of, is_alnum, is_space, lower_chars, lower_seq, space_char,
    string_of};
use crate::pipeline::PdfProcessor;

verus! {

/// Whitespace splitting: `cur` is the token being read, `acc` the tokens
/// already read; maximal non-whitespace runs become tokens.
pub open spec fn split_ws_rec(s: Seq<char>, cur: Seq<char>, acc: Seq<Seq<char>>) -> Seq<Seq<char>>
    decreases s.len(),
{
    if s.len() == 0 {
        if cur.len() > 0 {
            acc.push(cur)
        } else {
            acc
        }
    } else if is_space(s[0]) {
        if cur.len() > 0 {
            split_ws_rec(s.drop_first(), Seq::empty(), acc.push(cur))
        } else {
            split_ws_rec(s.drop_first(), cur, acc)
        }
    } else {
        split_ws_rec(s.drop_first(), cur.push(s[0]), acc)
    }
}

/// The whitespace-separated tokens of `s`, in order.
pub open spec fn split_whitespace_spec(s: Seq<char>) -> Seq<Seq<char>> {
    split_ws_rec(s, Seq::empty(), Seq::empty())
}

/// `t` without its leading non-alphanumeric characters.
pub open spec fn trim_start_nonalnum(t: Seq<char>) -> Seq<char>
    decreases t.len(),
{
    if t.len() == 0 {
        t
    } else if !is_alnum(t[0]) {
        trim_start_nonalnum(t.drop_first())
    } else {
        t
    }
}

/// `t` without its trailing non-alphanumeric characters.
pub open spec fn trim_end_nonalnum(t: Seq<char>) -> Seq<char>
    decreases t.len(),
{
    if t.len() == 0 {
        t
    } else if !is_alnum(t.last()) {
        trim_end_nonalnum(t.drop_last())
    } else {
        t
    }
}

/// A token stripped of leading and trailing non-alphanumeric characters.
pub open spec fn token_core(t: Seq<char>) -> Seq<char> {
    trim_end_nonalnum(trim_start_nonalnum(t))
}

/// The set of trimmed token cores longer than two characters.
pub open spec fn cores_rec(toks: Seq<Seq<char>>) -> Set<Seq<char>>
    decreases toks.len(),
{
    if toks.len() == 0 {
        Set::empty()
    } else {
        let w = token_core(toks[0]);
        let rest = cores_rec(toks.drop_first());
        if w.len() > 2 {
            rest.insert(w)
        } else {
            rest
        }
    }
}

/// The keyword set of a free-text description: lowercase it, split it on
/// whitespace, trim non-alphanumeric edges off each token, and keep the
/// distinct results longer than two characters.
pub open spec fn keyword_set(text: Seq<char>) -> Set<Seq<char>> {
    cores_rec(split_whitespace_spec(lower_seq(text)))
}

/// The views of a keyword list, as a set.
pub open spec fn view_set(r: Seq<String>) -> Set<Seq<char>> {
    r.map_values(|k: String| k@).to_set()
}

proof fn lemma_view_set_push(r: Seq<String>, s: String)
    ensures
        view_set(r.push(s)) == view_set(r).insert(s@),
{
    let f = |k: String| k@;
    assert(r.push(s).map_values(f) =~= r.map_values(f).push(s@));
    assert forall|w: Seq<char>| #[trigger] view_set(r.push(s)).contains(w) implies view_set(
        r,
    ).insert(s@).contains(w) by {
        let m = r.push(s).map_values(f);
        let i = choose|i: int| 0 <= i < m.len() && m[i] == w;
        if i < r.len() {
            assert(r.map_values(f)[i] == w);
        }
    }
    assert forall|w: Seq<char>| #[trigger] view_set(r).insert(s@).contains(w) implies view_set(
        r.push(s),
    ).contains(w) by {
        let m = r.push(s).map_values(f);
        if w == s@ {
            assert(m[r.len() as int] == w);
        } else {
            let i = choose|i: int| 0 <= i < r.len() && r.map_values(f)[i] == w;
            assert(m[i] == w);
        }
    }
    assert(view_set(r.push(s)) =~= view_set(r).insert(s@));
}

/// Whether some entry of `v` has the same characters as `s`.
fn contains_string(v: &Vec<String>, s: &String) -> (r: bool)
    ensures
        r == exists|i: int| 0 <= i < v@.len() && v@[i]@ == s@,
{
    let mut i: usize = 0;
    while i < v.len()
        invariant
            i <= v.len(),
            forall|j: int| 0 <= j < i ==> v@[j]@ != s@,
        decreases v.len() - i,
    {
        if v[i].eq(s) {
            return true;
        }
        i = i + 1;
    }
    false
}

impl PdfProcessor {
    /// The keyword vocabulary of one free-text description: exactly the
    /// members of [`keyword_set`], each once.
    pub fn extract_keywords_from_text(text: &str) -> (r: Vec<String>)
        ensures
            view_set(r@) == keyword_set(text@),
            forall|i: int, j: int| 0 <= i < j < r@.len() ==> r@[i]@ != r@[j]@,
            forall|i: int| 0 <= i < r@.len() ==> r@[i]@.len() > 2,
    {
        let v = chars_of(text);
        let lv = lower_chars(&v);
        let ghost lvs = lv@;
        let mut toks: Vec<Vec<char>> = Vec::new();
        let mut cur: Vec<char> = Vec::new();
        let mut i: usize = 0;
        assert(lvs.subrange(0, lvs.len() as int) =~= lvs);
        assert(toks@.map_values(|t: Vec<char>| t@) =~= Seq::<Seq<char>>::empty());
        while i < lv.len()
            invariant
                i <= lv.len(),
                split_ws_rec(
                    lvs.subrange(i as int, lvs.len() as int),
                    cur@,
                    toks@.map_values(|t: Vec<char>| t@),
                ) == split_whitespace_spec(lvs),
            decreases lv.len() - i,
        {
            let ghost rest = lvs.subrange(i as int, lvs.len() as int);
            assert(rest.drop_first() =~= lvs.subrange(i as int + 1, lvs.len() as int));
            let c = lv[i];
            if space_char(c) {
                if cur.len() > 0 {
                    let done = cur;
                    cur = Vec::new();
                    let ghost tv = toks@.map_values(|t: Vec<char>| t@);
                    toks.push(done);
                    assert(toks@.map_values(|t: Vec<char>| t@) =~= tv.push(done@));
                }
            } else {
                cur.push(c);
            }
            i = i + 1;
        }
        assert(lvs.subrange(lvs.len() as int, lvs.len() as int) =~= Seq::<char>::empty());
        if cur.len() > 0 {
            let ghost tv = toks@.map_values(|t: Vec<char>| t@);
            let done = cur;
            toks.push(done);
            assert(toks@.map_values(|t: Vec<char>| t@) =~= tv.push(done@));
        }
        let ghost tv = toks@.map_values(|t: Vec<char>| t@);
        assert(tv == split_whitespace_spec(lvs));

        let mut r: Vec<String> = Vec::new();
        let mut k: usize = 0;
        assert(tv.skip(0) =~= tv);
        while k < toks.len()
            invariant
                k <= toks.len(),
                tv == toks@.map_values(|t: Vec<char>| t@),
                view_set(r@).union(cores_rec(tv.skip(k as int))) == keyword_set(text@),
                forall|a: int, b: int| 0 <= a < b < r@.len() ==> r@[a]@ != r@[b]@,
                forall|a: int| 0 <= a < r@.len() ==> r@[a]@.len() > 2,
                forall|a: int| 0 <= a < r@.len() ==> keyword_set(text@).contains(r@[a]@),
            decreases toks.len() - k,
        {
            let t = &toks[k];
            assert(tv.skip(k as int)[0] == t@);
            assert(tv.skip(k as int).drop_first() =~= tv.skip(k as int + 1));
            let ghost w = token_core(t@);

            // Leading non-alphanumeric characters.
            let mut a: usize = 0;
            assert(t@.skip(0) =~= t@);
            while a < t.len() && !alnum_char(t[a])
                invariant
                    a <= t.len(),
                    trim_start_nonalnum(t@.skip(a as int)) == trim_start_nonalnum(t@),
                decreases t.len() - a,
            {
                assert(t@.skip(a as int).drop_first() =~= t@.skip(a as int + 1));
                a = a + 1;
            }
            assert(trim_start_nonalnum(t@) == t@.skip(a as int)) by {
                if a < t.len() {
                    assert(t@.skip(a as int)[0] == t@[a as int]);
                } else {
                    assert(t@.skip(a as int) =~= Seq::<char>::empty());
                }
            }

            // Trailing non-alphanumeric characters.
            let mut b: usize = t.len();
            assert(t@.subrange(a as int, t@.len() as int) =~= t@.skip(a as int));
            while b > a && !alnum_char(t[b - 1])
                invariant
                    a <= b <= t.len(),
                    trim_end_nonalnum(t@.subrange(a as int, b as int)) == trim_end_nonalnum(
                        t@.skip(a as int),
                    ),
                decreases b,
            {
                assert(t@.subrange(a as int, b as int).drop_last() =~= t@.subrange(
                    a as int,
                    b as int - 1,
                ));
                assert(t@.subrange(a as int, b as int).last() == t@[b as int - 1]);
                b = b - 1;
            }
            assert(t@.skip(a as int) =~= t@.subrange(a as int, t@.len() as int));
            assert(w == t@.subrange(a as int, b as int)) by {
                if b > a {
                    assert(t@.subrange(a as int, b as int).last() == t@[b as int - 1]);
                } else {
                    assert(t@.subrange(a as int, b as int) =~= Seq::<char>::empty());
                }
            }

            let mut core: Vec<char> = Vec::new();
            let mut p: usize = a;
            while p < b
                invariant
                    a <= p <= b,
                    core@ == t@.subrange(a as int, p as int),
                decreases b - p,
            {
                core.push(t[p]);
                assert(core@ =~= t@.subrange(a as int, p as int + 1));
                p = p + 1;
            }
            assert(core@ == w);

            if core.len() > 2 {
                let s = string_of(&core);
                if !contains_string(&r, &s) {
                    let ghost rv = r@;
                    r.push(s);
                    proof {
                        lemma_view_set_push(rv, s);
                        assert(view_set(r@).union(cores_rec(tv.skip(k as int + 1))) =~= view_set(
                            rv,
                        ).union(cores_rec(tv.skip(k as int))));
                    }
                } else {
                    proof {
                        assert(view_set(r@).contains(w)) by {
                            let i0 = choose|i0: int| 0 <= i0 < r@.len() && r@[i0]@ == s@;
                            assert(r@.map_values(|x: String| x@)[i0] == w);
                        }
                        assert(view_set(r@).union(cores_rec(tv.skip(k as int + 1))) =~= view_set(
                            r@,
                        ).union(cores_rec(tv.skip(k as int))));
                    }
                }
            } else {
                proof {
                    assert(view_set(r@).union(cores_rec(tv.skip(k as int + 1))) =~= view_set(
                        r@,
                    ).union(cores_rec(tv.skip(k as int))));
                }
            }
            k = k + 1;
        }
        assert(tv.skip(toks@.len() as int) =~= Seq::<Seq<char>>::empty());
        assert(view_set(r@) =~= view_set(r@).union(cores_rec(Seq::empty())));
        r
    }
}

} // verus!
