//! Small helpers shared by callers of the library.

use vstd::prelude::*;

use crate::chars::{alnum_char, chars_of, is_alnum, string_of};

verus! {

/// Every character outside ASCII letters and digits replaced by `'_'`.
pub open spec fn sanitized(s: Seq<char>) -> Seq<char> {
    s.map_values(
        |c: char|
            if is_alnum(c) {
                c
            } else {
                '_'
            },
    )
}

/// A filename with every non-alphanumeric character replaced by `'_'`.
pub fn sanitize_filename(filename: &str) -> (r: String)
    ensures
        r@ == sanitized(filename@),
{
    let v = chars_of(filename);
    let mut out: Vec<char> = Vec::new();
    let mut i: usize = 0;
    while i < v.len()
        invariant
            i <= v.len(),
            out@ == sanitized(v@.subrange(0, i as int)),
        decreases v.len() - i,
    {
        let c = v[i];
        if alnum_char(c) {
            out.push(c);
        } else {
            out.push('_');
        }
        assert(out@ =~= sanitized(v@.subrange(0, i as int + 1)));
        i = i + 1;
    }
    assert(v@.subrange(0, v@.len() as int) =~= v@);
    string_of(&out)
}

} // verus!
