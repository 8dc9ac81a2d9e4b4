//! Heading extractor: pattern-matches candidate section titles over the
//! logical lines of a page's raw (line-structured) text. Four pattern
//! families are applied independently and their matches concatenated in
//! family order; trimmed candidates outside the length range `[4, 100)`
//! are discarded.

use vstd::prelude::*;

use crate::chars::{chars_of, digit_char, is_digit, is_letter, is_space, is_upper, lemma_trim_ws_idempotent, space_char, string_of, trim_ws, trim_ws_vec, upper_char};
use crate::pipeline::PdfProcessor;

verus! {

/// Shortest accepted title length.
pub const MIN_TITLE_LEN: usize = 4;

/// First length no longer accepted as a title.
pub const MAX_TITLE_LEN: usize = 100;

/// The lines of `s` as split on `'\n'`, separators removed, empty lines
/// kept: `cur` is the line being read, `acc` the lines already read.
pub open spec fn lines_rec(s: Seq<char>, cur: Seq<char>, acc: Seq<Seq<char>>) -> Seq<Seq<char>>
    decreases s.len(),
{
    if s.len() == 0 {
        acc.push(cur)
    } else if s[0] == '\n' {
        lines_rec(s.drop_first(), Seq::empty(), acc.push(cur))
    } else {
        lines_rec(s.drop_first(), cur.push(s[0]), acc)
    }
}

/// The logical lines of a page text.
pub open spec fn lines_spec(s: Seq<char>) -> Seq<Seq<char>> {
    lines_rec(s, Seq::empty(), Seq::empty())
}

/// First index at or after `i` whose character fails `p` (or the length).
pub open spec fn scan_while(b: Seq<char>, i: int, p: spec_fn(char) -> bool) -> int
    decreases b.len() - i,
{
    if i < b.len() && p(b[i]) {
        scan_while(b, i + 1, p)
    } else {
        i
    }
}

/// Letters and whitespace: the body of a capitalized phrase.
pub open spec fn letter_or_space() -> spec_fn(char) -> bool {
    |c: char| is_letter(c) || is_space(c)
}

/// Uppercase letters and whitespace: the body of an all-caps line.
pub open spec fn upper_or_space() -> spec_fn(char) -> bool {
    |c: char| is_upper(c) || is_space(c)
}

/// Whitespace.
pub open spec fn space_pred() -> spec_fn(char) -> bool {
    |c: char| is_space(c)
}

/// Decimal digits.
pub open spec fn digit_pred() -> spec_fn(char) -> bool {
    |c: char| is_digit(c)
}

/// Anything but a period.
pub open spec fn not_period() -> spec_fn(char) -> bool {
    |c: char| c != '.'
}

/// A line body without its one optional trailing colon.
pub open spec fn strip_colon(l: Seq<char>) -> Seq<char> {
    if l.len() > 0 && l.last() == ':' {
        l.drop_last()
    } else {
        l
    }
}

/// Family 1: a capitalized phrase — an uppercase letter, then at least
/// three letters or spaces, nothing else.
pub open spec fn matches_capitalized(b: Seq<char>) -> bool {
    b.len() >= 4 && is_upper(b[0]) && scan_while(b, 1, letter_or_space()) == b.len()
}

/// Family 2: a numbered heading — digits, an optional period, whitespace,
/// then a capitalized phrase of at least two letters or spaces.
pub open spec fn matches_numbered(b: Seq<char>) -> bool {
    let d = scan_while(b, 0, digit_pred());
    let p = if d < b.len() && b[d] == '.' {
        d + 1
    } else {
        d
    };
    let q = scan_while(b, p, space_pred());
    d >= 1 && q > p && q + 1 < b.len() && is_upper(b[q]) && scan_while(b, q + 1, letter_or_space())
        == b.len()
}

/// Family 3: a chapter line — the word `Chapter`, whitespace, digits, then
/// anything without a period.
pub open spec fn matches_chapter(b: Seq<char>) -> bool {
    b.len() >= 7 && b[0] == 'C' && b[1] == 'h' && b[2] == 'a' && b[3] == 'p' && b[4] == 't' && b[5]
        == 'e' && b[6] == 'r' && {
        let w = scan_while(b, 7, space_pred());
        let d = scan_while(b, w, digit_pred());
        w > 7 && d > w && scan_while(b, d, not_period()) == b.len()
    }
}

/// Family 4: an all-caps line of at least four uppercase letters or spaces.
pub open spec fn matches_allcaps(b: Seq<char>) -> bool {
    b.len() >= 4 && scan_while(b, 0, upper_or_space()) == b.len()
}

/// The pattern family predicates, in the order they are applied.
pub open spec fn family_matches(k: int, b: Seq<char>) -> bool {
    if k == 0 {
        matches_capitalized(b)
    } else if k == 1 {
        matches_numbered(b)
    } else if k == 2 {
        matches_chapter(b)
    } else {
        matches_allcaps(b)
    }
}

/// The candidate title a line yields: colon stripped, whitespace trimmed.
pub open spec fn candidate_of(l: Seq<char>) -> Seq<char> {
    trim_ws(strip_colon(l))
}

/// Whether a candidate length is accepted.
pub open spec fn title_len_ok(c: Seq<char>) -> bool {
    MIN_TITLE_LEN <= c.len() < MAX_TITLE_LEN
}

/// The accepted candidates of one pattern family over a line list.
pub open spec fn family_pass(ls: Seq<Seq<char>>, k: int) -> Seq<Seq<char>>
    decreases ls.len(),
{
    if ls.len() == 0 {
        Seq::empty()
    } else {
        let c = candidate_of(ls[0]);
        let rest = family_pass(ls.drop_first(), k);
        if family_matches(k, strip_colon(ls[0])) && title_len_ok(c) {
            seq![c] + rest
        } else {
            rest
        }
    }
}

/// All headings of a page text: the four family passes over its lines,
/// concatenated in family order.
pub open spec fn headings_spec(s: Seq<char>) -> Seq<Seq<char>> {
    let ls = lines_spec(s);
    family_pass(ls, 0) + family_pass(ls, 1) + family_pass(ls, 2) + family_pass(ls, 3)
}

fn scan_letter_space(b: &Vec<char>, from: usize) -> (r: usize)
    requires
        from <= b.len(),
    ensures
        from <= r <= b.len(),
        r == scan_while(b@, from as int, letter_or_space()),
{
    let mut j = from;
    while j < b.len() && (upper_char(b[j]) || ('a' <= b[j] && b[j] <= 'z') || space_char(b[j]))
        invariant
            from <= j <= b.len(),
            scan_while(b@, from as int, letter_or_space()) == scan_while(
                b@,
                j as int,
                letter_or_space(),
            ),
        decreases b.len() - j,
    {
        j = j + 1;
    }
    j
}

fn scan_upper_space(b: &Vec<char>, from: usize) -> (r: usize)
    requires
        from <= b.len(),
    ensures
        from <= r <= b.len(),
        r == scan_while(b@, from as int, upper_or_space()),
{
    let mut j = from;
    while j < b.len() && (upper_char(b[j]) || space_char(b[j]))
        invariant
            from <= j <= b.len(),
            scan_while(b@, from as int, upper_or_space()) == scan_while(
                b@,
                j as int,
                upper_or_space(),
            ),
        decreases b.len() - j,
    {
        j = j + 1;
    }
    j
}

fn scan_space(b: &Vec<char>, from: usize) -> (r: usize)
    requires
        from <= b.len(),
    ensures
        from <= r <= b.len(),
        r == scan_while(b@, from as int, space_pred()),
{
    let mut j = from;
    while j < b.len() && space_char(b[j])
        invariant
            from <= j <= b.len(),
            scan_while(b@, from as int, space_pred()) == scan_while(b@, j as int, space_pred()),
        decreases b.len() - j,
    {
        j = j + 1;
    }
    j
}

fn scan_digit(b: &Vec<char>, from: usize) -> (r: usize)
    requires
        from <= b.len(),
    ensures
        from <= r <= b.len(),
        r == scan_while(b@, from as int, digit_pred()),
{
    let mut j = from;
    while j < b.len() && digit_char(b[j])
        invariant
            from <= j <= b.len(),
            scan_while(b@, from as int, digit_pred()) == scan_while(b@, j as int, digit_pred()),
        decreases b.len() - j,
    {
        j = j + 1;
    }
    j
}

fn scan_not_period(b: &Vec<char>, from: usize) -> (r: usize)
    requires
        from <= b.len(),
    ensures
        from <= r <= b.len(),
        r == scan_while(b@, from as int, not_period()),
{
    let mut j = from;
    while j < b.len() && b[j] != '.'
        invariant
            from <= j <= b.len(),
            scan_while(b@, from as int, not_period()) == scan_while(b@, j as int, not_period()),
        decreases b.len() - j,
    {
        j = j + 1;
    }
    j
}

/// Whether the stripped line body matches the given pattern family.
fn family_match(k: usize, b: &Vec<char>) -> (r: bool)
    requires
        k < 4,
    ensures
        r == family_matches(k as int, b@),
{
    if k == 0 {
        b.len() >= 4 && upper_char(b[0]) && scan_letter_space(b, 1) == b.len()
    } else if k == 1 {
        let d = scan_digit(b, 0);
        if d < 1 {
            return false;
        }
        let p = if d < b.len() && b[d] == '.' {
            d + 1
        } else {
            d
        };
        let q = scan_space(b, p);
        q > p && q < b.len() && q + 1 < b.len() && upper_char(b[q]) && scan_letter_space(b, q + 1)
            == b.len()
    } else if k == 2 {
        if b.len() < 7 {
            return false;
        }
        if !(b[0] == 'C' && b[1] == 'h' && b[2] == 'a' && b[3] == 'p' && b[4] == 't' && b[5] == 'e'
            && b[6] == 'r') {
            return false;
        }
        let w = scan_space(b, 7);
        if w <= 7 {
            return false;
        }
        let d = scan_digit(b, w);
        d > w && scan_not_period(b, d) == b.len()
    } else {
        b.len() >= 4 && scan_upper_space(b, 0) == b.len()
    }
}

/// The line body with one trailing colon removed, if present.
fn strip_colon_vec(l: &Vec<char>) -> (r: Vec<char>)
    ensures
        r@ == strip_colon(l@),
{
    let mut r: Vec<char> = Vec::new();
    let end = if l.len() > 0 && l[l.len() - 1] == ':' {
        l.len() - 1
    } else {
        l.len()
    };
    let mut p: usize = 0;
    while p < end
        invariant
            p <= end <= l.len(),
            r@ == l@.subrange(0, p as int),
        decreases end - p,
    {
        r.push(l[p]);
        assert(r@ =~= l@.subrange(0, p as int + 1));
        p = p + 1;
    }
    proof {
        if l@.len() > 0 && l@.last() == ':' {
            assert(r@ =~= l@.drop_last());
        } else {
            assert(r@ =~= l@);
        }
    }
    r
}

/// The logical lines of a character vector, split on `'\n'`.
pub fn split_lines(v: &Vec<char>) -> (r: Vec<Vec<char>>)
    ensures
        r@.map_values(|t: Vec<char>| t@) == lines_spec(v@),
{
    let ghost sv = v@;
    let mut lines: Vec<Vec<char>> = Vec::new();
    let mut cur: Vec<char> = Vec::new();
    let mut i: usize = 0;
    assert(sv.subrange(0, sv.len() as int) =~= sv);
    assert(lines@.map_values(|t: Vec<char>| t@) =~= Seq::<Seq<char>>::empty());
    while i < v.len()
        invariant
            i <= v.len(),
            lines_rec(
                sv.subrange(i as int, sv.len() as int),
                cur@,
                lines@.map_values(|t: Vec<char>| t@),
            ) == lines_spec(sv),
        decreases v.len() - i,
    {
        let ghost rest = sv.subrange(i as int, sv.len() as int);
        assert(rest.drop_first() =~= sv.subrange(i as int + 1, sv.len() as int));
        let c = v[i];
        if c == '\n' {
            let done = cur;
            cur = Vec::new();
            let ghost lv = lines@.map_values(|t: Vec<char>| t@);
            lines.push(done);
            assert(lines@.map_values(|t: Vec<char>| t@) =~= lv.push(done@));
        } else {
            cur.push(c);
        }
        i = i + 1;
    }
    assert(sv.subrange(sv.len() as int, sv.len() as int) =~= Seq::<char>::empty());
    {
        let done = cur;
        let ghost lv = lines@.map_values(|t: Vec<char>| t@);
        lines.push(done);
        assert(lines@.map_values(|t: Vec<char>| t@) =~= lv.push(done@));
    }
    lines
}

impl PdfProcessor {
    /// The candidate section titles of one page, from its raw
    /// line-structured text. Every title is whitespace-trimmed and its
    /// length lies in `[MIN_TITLE_LEN, MAX_TITLE_LEN)`.
    pub fn extract_headings_from_page(page_text: &str) -> (r: Vec<String>)
        ensures
            r@.map_values(|t: String| t@) == headings_spec(page_text@),
            forall|i: int|
                0 <= i < r@.len() ==> trim_ws(#[trigger] r@[i]@) == r@[i]@ && MIN_TITLE_LEN
                    <= r@[i]@.len() < MAX_TITLE_LEN,
    {
        let v = chars_of(page_text);
        let ghost sv = v@;
        let lines = split_lines(&v);
        let ghost ls = lines@.map_values(|t: Vec<char>| t@);
        assert(ls == lines_spec(sv));

        // Apply the four families in order.
        let mut r: Vec<String> = Vec::new();
        let mut k: usize = 0;
        assert(r@.map_values(|t: String| t@) =~= Seq::<Seq<char>>::empty());
        while k < 4
            invariant
                k <= 4,
                ls == lines@.map_values(|t: Vec<char>| t@),
                r@.map_values(|t: String| t@) == prefix_passes(ls, k as int),
                forall|i: int|
                    0 <= i < r@.len() ==> trim_ws(#[trigger] r@[i]@) == r@[i]@ && MIN_TITLE_LEN
                        <= r@[i]@.len() < MAX_TITLE_LEN,
            decreases 4 - k,
        {
            let mut j: usize = 0;
            assert(ls.skip(0) =~= ls);
            let ghost r_at_family_start = r@.map_values(|t: String| t@);
            while j < lines.len()
                invariant
                    j <= lines.len(),
                    k < 4,
                    ls == lines@.map_values(|t: Vec<char>| t@),
                    r@.map_values(|t: String| t@) + family_pass(ls.skip(j as int), k as int)
                        == r_at_family_start + family_pass(ls, k as int),
                    forall|i: int|
                        0 <= i < r@.len() ==> trim_ws(#[trigger] r@[i]@) == r@[i]@ && MIN_TITLE_LEN
                            <= r@[i]@.len() < MAX_TITLE_LEN,
                decreases lines.len() - j,
            {
                assert(ls.skip(j as int)[0] == ls[j as int]);
                assert(ls.skip(j as int).drop_first() =~= ls.skip(j as int + 1));
                let body = strip_colon_vec(&lines[j]);
                if family_match(k, &body) {
                    let cand = trim_ws_vec(&body);
                    assert(cand@ == candidate_of(ls[j as int]));
                    if cand.len() >= MIN_TITLE_LEN && cand.len() < MAX_TITLE_LEN {
                        let ghost rv = r@.map_values(|t: String| t@);
                        let title = string_of(&cand);
                        proof {
                            lemma_trim_ws_idempotent(strip_colon(ls[j as int]));
                        }
                        r.push(title);
                        assert(r@.map_values(|t: String| t@) =~= rv.push(cand@));
                        assert(rv.push(cand@) + family_pass(ls.skip(j as int + 1), k as int) =~= rv
                            + family_pass(ls.skip(j as int), k as int));
                    } else {
                        assert(r@.map_values(|t: String| t@) + family_pass(
                            ls.skip(j as int + 1),
                            k as int,
                        ) =~= r@.map_values(|t: String| t@) + family_pass(
                            ls.skip(j as int),
                            k as int,
                        ));
                    }
                } else {
                    assert(r@.map_values(|t: String| t@) + family_pass(
                        ls.skip(j as int + 1),
                        k as int,
                    ) =~= r@.map_values(|t: String| t@) + family_pass(ls.skip(j as int), k as int));
                }
                j = j + 1;
            }
            assert(ls.skip(lines@.len() as int) =~= Seq::<Seq<char>>::empty());
            assert(family_pass(Seq::empty(), k as int) =~= Seq::<Seq<char>>::empty());
            assert(r@.map_values(|t: String| t@) =~= r_at_family_start + family_pass(
                ls,
                k as int,
            ));
            assert(r@.map_values(|t: String| t@) =~= prefix_passes(ls, k as int + 1));
            k = k + 1;
        }
        assert(r@.map_values(|t: String| t@) =~= headings_spec(page_text@));
        r
    }
}

/// The concatenation of the first `k` family passes.
pub open spec fn prefix_passes(ls: Seq<Seq<char>>, k: int) -> Seq<Seq<char>> {
    if k <= 0 {
        Seq::empty()
    } else if k == 1 {
        family_pass(ls, 0)
    } else if k == 2 {
        family_pass(ls, 0) + family_pass(ls, 1)
    } else if k == 3 {
        family_pass(ls, 0) + family_pass(ls, 1) + family_pass(ls, 2)
    } else {
        family_pass(ls, 0) + family_pass(ls, 1) + family_pass(ls, 2) + family_pass(ls, 3)
    }
}

} // verus!
