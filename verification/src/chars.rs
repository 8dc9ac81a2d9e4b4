//! Character classification, lowercasing, and `String`/`Vec<char>` bridges
//! shared by the text-processing components.

use vstd::prelude::*;
use vstd::string::StrSliceExecFns;

verus! {

/// Whitespace characters recognized by the normalizer and tokenizers:
/// space, tab, line feed, vertical tab, form feed, carriage return.
pub open spec fn is_space(c: char) -> bool {
    c == ' ' || c == '\t' || c == '\n' || c == '\u{b}' || c == '\u{c}' || c == '\r'
}

/// Executable mirror of [`is_space`].
pub fn space_char(c: char) -> (r: bool)
    ensures
        r == is_space(c),
{
    c == ' ' || c == '\t' || c == '\n' || c == '\u{b}' || c == '\u{c}' || c == '\r'
}

/// ASCII decimal digit.
pub open spec fn is_digit(c: char) -> bool {
    '0' <= c && c <= '9'
}

/// Executable mirror of [`is_digit`].
pub fn digit_char(c: char) -> (r: bool)
    ensures
        r == is_digit(c),
{
    '0' <= c && c <= '9'
}

/// ASCII uppercase letter.
pub open spec fn is_upper(c: char) -> bool {
    'A' <= c && c <= 'Z'
}

/// Executable mirror of [`is_upper`].
pub fn upper_char(c: char) -> (r: bool)
    ensures
        r == is_upper(c),
{
    'A' <= c && c <= 'Z'
}

/// ASCII lowercase letter.
pub open spec fn is_lower(c: char) -> bool {
    'a' <= c && c <= 'z'
}

/// Executable mirror of [`is_lower`].
pub fn lowercase_char(c: char) -> (r: bool)
    ensures
        r == is_lower(c),
{
    'a' <= c && c <= 'z'
}

/// ASCII letter.
pub open spec fn is_letter(c: char) -> bool {
    is_upper(c) || is_lower(c)
}

/// ASCII alphanumeric character.
pub open spec fn is_alnum(c: char) -> bool {
    is_letter(c) || is_digit(c)
}

/// Executable mirror of [`is_alnum`].
pub fn alnum_char(c: char) -> (r: bool)
    ensures
        r == is_alnum(c),
{
    upper_char(c) || lowercase_char(c) || digit_char(c)
}

/// ASCII lowercasing of one character; characters outside `A..=Z` are kept.
pub open spec fn to_lower(c: char) -> char {
    if is_upper(c) {
        ((c as u8) + 32) as char
    } else {
        c
    }
}

/// Executable mirror of [`to_lower`].
pub fn lower_of_char(c: char) -> (r: char)
    ensures
        r == to_lower(c),
{
    if upper_char(c) {
        ((c as u8) + 32) as char
    } else {
        c
    }
}

/// ASCII lowercasing of a character sequence.
pub open spec fn lower_seq(s: Seq<char>) -> Seq<char> {
    s.map_values(|c: char| to_lower(c))
}

/// The characters of a string slice, in order.
pub fn chars_of(s: &str) -> (r: Vec<char>)
    ensures
        r@ == s@,
{
    let n = s.unicode_len();
    let mut r: Vec<char> = Vec::new();
    let mut i: usize = 0;
    while i < n
        invariant
            i <= n,
            r@ == s@.subrange(0, i as int),
        decreases n - i,
    {
        r.push(s.get_char(i));
        i = i + 1;
    }
    assert(r@ =~= s@);
    r
}

/// Relies on `String::push`: appends exactly the given character.
#[verifier::external_body]
pub(crate) fn push_char(s: &mut String, c: char)
    ensures
        final(s)@ == old(s)@.push(c),
{
    s.push(c);
}

/// A `String` holding exactly the given characters.
pub fn string_of(v: &Vec<char>) -> (r: String)
    ensures
        r@ == v@,
{
    let mut r = String::new();
    let mut i: usize = 0;
    while i < v.len()
        invariant
            i <= v.len(),
            r@ == v@.subrange(0, i as int),
        decreases v.len() - i,
    {
        push_char(&mut r, v[i]);
        assert(r@ =~= v@.subrange(0, i as int + 1));
        i = i + 1;
    }
    assert(r@ =~= v@);
    r
}

/// `s` without its leading whitespace.
pub open spec fn trim_start_ws(s: Seq<char>) -> Seq<char>
    decreases s.len(),
{
    if s.len() == 0 {
        s
    } else if is_space(s[0]) {
        trim_start_ws(s.drop_first())
    } else {
        s
    }
}

/// `s` without its trailing whitespace.
pub open spec fn trim_end_ws(s: Seq<char>) -> Seq<char>
    decreases s.len(),
{
    if s.len() == 0 {
        s
    } else if is_space(s.last()) {
        trim_end_ws(s.drop_last())
    } else {
        s
    }
}

/// `s` without leading and trailing whitespace.
pub open spec fn trim_ws(s: Seq<char>) -> Seq<char> {
    trim_end_ws(trim_start_ws(s))
}

proof fn lemma_trim_start_ws_shape(s: Seq<char>)
    ensures
        trim_start_ws(s).len() <= s.len(),
        trim_start_ws(s).len() > 0 ==> !is_space(trim_start_ws(s)[0]),
        trim_start_ws(s) == s.subrange(s.len() - trim_start_ws(s).len(), s.len() as int),
    decreases s.len(),
{
    if s.len() == 0 {
        assert(trim_start_ws(s) =~= s.subrange(0, 0));
    } else if is_space(s[0]) {
        lemma_trim_start_ws_shape(s.drop_first());
        let t = trim_start_ws(s);
        assert(s.drop_first().subrange(s.drop_first().len() - t.len(), s.drop_first().len() as int)
            =~= s.subrange(s.len() - t.len(), s.len() as int));
    } else {
        assert(trim_start_ws(s) =~= s.subrange(0, s.len() as int));
    }
}

proof fn lemma_trim_end_ws_shape(s: Seq<char>)
    ensures
        trim_end_ws(s).len() <= s.len(),
        trim_end_ws(s).len() > 0 ==> !is_space(trim_end_ws(s).last()),
        trim_end_ws(s) == s.subrange(0, trim_end_ws(s).len() as int),
    decreases s.len(),
{
    if s.len() == 0 {
        assert(trim_end_ws(s) =~= s.subrange(0, 0));
    } else if is_space(s.last()) {
        lemma_trim_end_ws_shape(s.drop_last());
        let t = trim_end_ws(s);
        assert(t.len() <= s.drop_last().len());
        assert(s.drop_last().subrange(0, t.len() as int) =~= s.subrange(0, t.len() as int));
    } else {
        assert(trim_end_ws(s) =~= s.subrange(0, s.len() as int));
    }
}

/// A trimmed sequence is empty or bounded by non-whitespace characters.
pub proof fn lemma_trim_ws_shape(s: Seq<char>)
    ensures
        trim_ws(s).len() > 0 ==> !is_space(trim_ws(s)[0]) && !is_space(trim_ws(s).last()),
{
    lemma_trim_start_ws_shape(s);
    lemma_trim_end_ws_shape(trim_start_ws(s));
    let t0 = trim_start_ws(s);
    let t = trim_ws(s);
    if t.len() > 0 {
        assert(t[0] == t0.subrange(0, t.len() as int)[0]);
    }
}

/// Trimming leaves text with non-whitespace edges unchanged.
pub proof fn lemma_trim_ws_fixed(s: Seq<char>)
    requires
        s.len() > 0 ==> !is_space(s[0]) && !is_space(s.last()),
    ensures
        trim_ws(s) == s,
{
    if s.len() == 0 {
        assert(trim_start_ws(s) == s);
        assert(trim_end_ws(s) == s);
    }
}

/// Trimming is idempotent.
pub proof fn lemma_trim_ws_idempotent(s: Seq<char>)
    ensures
        trim_ws(trim_ws(s)) == trim_ws(s),
{
    lemma_trim_ws_shape(s);
    lemma_trim_ws_fixed(trim_ws(s));
}

/// `v` without leading and trailing whitespace.
pub fn trim_ws_vec(v: &Vec<char>) -> (r: Vec<char>)
    ensures
        r@ == trim_ws(v@),
{
    let mut a: usize = 0;
    assert(v@.skip(0) =~= v@);
    while a < v.len() && space_char(v[a])
        invariant
            a <= v.len(),
            trim_start_ws(v@.skip(a as int)) == trim_start_ws(v@),
        decreases v.len() - a,
    {
        assert(v@.skip(a as int).drop_first() =~= v@.skip(a as int + 1));
        a = a + 1;
    }
    assert(trim_start_ws(v@) == v@.skip(a as int)) by {
        if a < v.len() {
            assert(v@.skip(a as int)[0] == v@[a as int]);
        } else {
            assert(v@.skip(a as int) =~= Seq::<char>::empty());
        }
    }
    let mut b: usize = v.len();
    assert(v@.subrange(a as int, v@.len() as int) =~= v@.skip(a as int));
    while b > a && space_char(v[b - 1])
        invariant
            a <= b <= v.len(),
            trim_end_ws(v@.subrange(a as int, b as int)) == trim_end_ws(v@.skip(a as int)),
        decreases b,
    {
        assert(v@.subrange(a as int, b as int).drop_last() =~= v@.subrange(a as int, b as int - 1));
        assert(v@.subrange(a as int, b as int).last() == v@[b as int - 1]);
        b = b - 1;
    }
    assert(trim_ws(v@) == v@.subrange(a as int, b as int)) by {
        if b > a {
            assert(v@.subrange(a as int, b as int).last() == v@[b as int - 1]);
        } else {
            assert(v@.subrange(a as int, b as int) =~= Seq::<char>::empty());
        }
    }
    let mut r: Vec<char> = Vec::new();
    let mut p: usize = a;
    while p < b
        invariant
            a <= p <= b <= v.len(),
            r@ == v@.subrange(a as int, p as int),
        decreases b - p,
    {
        r.push(v[p]);
        assert(r@ =~= v@.subrange(a as int, p as int + 1));
        p = p + 1;
    }
    r
}

/// ASCII lowercasing of a character vector.
pub fn lower_chars(v: &Vec<char>) -> (r: Vec<char>)
    ensures
        r@ == lower_seq(v@),
{
    let mut r: Vec<char> = Vec::new();
    let mut i: usize = 0;
    while i < v.len()
        invariant
            i <= v.len(),
            r@ == lower_seq(v@.subrange(0, i as int)),
        decreases v.len() - i,
    {
        r.push(lower_of_char(v[i]));
        assert(r@ =~= lower_seq(v@.subrange(0, i as int + 1)));
        i = i + 1;
    }
    assert(r@ =~= lower_seq(v@));
    r
}

} // verus!
