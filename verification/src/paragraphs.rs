//! Paragraph segmenter: splits a page's raw text into paragraph-level
//! candidate units. Three tiers: blank-line blocks, then sentence chunks
//! when the decoder produced no real paragraph breaks, then the whole page
//! text — degraded granularity is preferred over losing content.

use vstd::prelude::*;

use crate::chars::{chars_of, is_space, space_char, string_of, trim_ws, trim_ws_vec};
use crate::headings::{lines_spec, split_lines};
use crate::normalize::{normalize_spec, normalize_vec};
use crate::pipeline::PdfProcessor;

verus! {

/// Shortest kept paragraph or chunk length (the noise floor).
pub const PARA_MIN_LEN: usize = 20;

/// Shortest kept sentence length in the sentence-chunking tier.
pub const SENTENCE_MIN_LEN: usize = 10;

/// Sentences grouped per chunk in the sentence-chunking tier.
pub const SENTENCES_PER_CHUNK: usize = 3;

/// Most segments the blank-line tier may yield while still counting as
/// "no real paragraph breaks".
pub const FALLBACK_MAX_SEGMENTS: usize = 2;

/// A line whose characters are all whitespace (or none).
pub open spec fn is_blank_line(l: Seq<char>) -> bool {
    forall|i: int| 0 <= i < l.len() ==> is_space(#[trigger] l[i])
}

/// Groups consecutive non-blank lines into blocks: `cur` is the block
/// being gathered (lines rejoined with `'\n'`), `acc` the finished blocks.
pub open spec fn blocks_rec(ls: Seq<Seq<char>>, cur: Seq<char>, acc: Seq<Seq<char>>) -> Seq<
    Seq<char>,
>
    decreases ls.len(),
{
    if ls.len() == 0 {
        if cur.len() > 0 {
            acc.push(cur)
        } else {
            acc
        }
    } else if is_blank_line(ls[0]) {
        if cur.len() > 0 {
            blocks_rec(ls.drop_first(), Seq::empty(), acc.push(cur))
        } else {
            blocks_rec(ls.drop_first(), cur, acc)
        }
    } else {
        let cur2 = if cur.len() > 0 {
            cur + seq!['\n'] + ls[0]
        } else {
            ls[0]
        };
        blocks_rec(ls.drop_first(), cur2, acc)
    }
}

/// The blank-line-separated blocks of a raw page text.
pub open spec fn blocks_spec(s: Seq<char>) -> Seq<Seq<char>> {
    blocks_rec(lines_spec(s), Seq::empty(), Seq::empty())
}

/// The blocks in canonical form, those above the noise floor.
pub open spec fn primary_rec(bs: Seq<Seq<char>>) -> Seq<Seq<char>>
    decreases bs.len(),
{
    if bs.len() == 0 {
        Seq::empty()
    } else {
        let p = normalize_spec(bs[0]);
        let rest = primary_rec(bs.drop_first());
        if p.len() > PARA_MIN_LEN {
            seq![p] + rest
        } else {
            rest
        }
    }
}

/// The pieces of `s` split on `'.'`, separators removed, empty pieces kept:
/// `cur` is the piece being read, `acc` the pieces already read.
pub open spec fn dots_rec(s: Seq<char>, cur: Seq<char>, acc: Seq<Seq<char>>) -> Seq<Seq<char>>
    decreases s.len(),
{
    if s.len() == 0 {
        acc.push(cur)
    } else if s[0] == '.' {
        dots_rec(s.drop_first(), Seq::empty(), acc.push(cur))
    } else {
        dots_rec(s.drop_first(), cur.push(s[0]), acc)
    }
}

/// The sentences of a canonical text, split on `'.'`.
pub open spec fn sentences_spec(s: Seq<char>) -> Seq<Seq<char>> {
    dots_rec(s, Seq::empty(), Seq::empty())
}

/// The sentences kept for chunking: trimmed, above the sentence floor.
pub open spec fn usable_rec(ss: Seq<Seq<char>>) -> Seq<Seq<char>>
    decreases ss.len(),
{
    if ss.len() == 0 {
        Seq::empty()
    } else {
        let t = trim_ws(ss[0]);
        let rest = usable_rec(ss.drop_first());
        if t.len() > SENTENCE_MIN_LEN {
            seq![t] + rest
        } else {
            rest
        }
    }
}

/// Sentences of one chunk re-joined with `". "`.
pub open spec fn join_sentences(ss: Seq<Seq<char>>) -> Seq<char>
    decreases ss.len(),
{
    if ss.len() == 0 {
        Seq::empty()
    } else if ss.len() == 1 {
        ss[0]
    } else {
        ss[0] + seq!['.', ' '] + join_sentences(ss.drop_first())
    }
}

/// Fixed-size groups of sentences re-joined into paragraph candidates,
/// chunks below the noise floor discarded.
pub open spec fn chunks_rec(ss: Seq<Seq<char>>) -> Seq<Seq<char>>
    decreases ss.len(),
{
    if ss.len() == 0 {
        Seq::empty()
    } else {
        let take = if ss.len() >= SENTENCES_PER_CHUNK {
            SENTENCES_PER_CHUNK as int
        } else {
            ss.len() as int
        };
        let c = join_sentences(ss.take(take));
        let rest = chunks_rec(ss.skip(take));
        if c.len() > PARA_MIN_LEN {
            seq![c] + rest
        } else {
            rest
        }
    }
}

/// The paragraph candidates of one page's raw text: blank-line blocks; or,
/// when those signal no real paragraph breaks, sentence chunks of the
/// canonical text; or the whole canonical text when it alone is
/// non-trivial.
pub open spec fn paragraphs_spec(s: Seq<char>) -> Seq<Seq<char>> {
    let prim = primary_rec(blocks_spec(s));
    if prim.len() > FALLBACK_MAX_SEGMENTS {
        prim
    } else {
        let canon = normalize_spec(s);
        let ch = chunks_rec(usable_rec(sentences_spec(canon)));
        if ch.len() > 0 {
            ch
        } else if canon.len() > PARA_MIN_LEN {
            seq![canon]
        } else {
            prim
        }
    }
}

/// Whether every character of the line is whitespace.
fn blank_line(l: &Vec<char>) -> (r: bool)
    ensures
        r == is_blank_line(l@),
{
    let mut i: usize = 0;
    while i < l.len()
        invariant
            i <= l.len(),
            forall|k: int| 0 <= k < i ==> is_space(#[trigger] l@[k]),
        decreases l.len() - i,
    {
        if !space_char(l[i]) {
            return false;
        }
        i = i + 1;
    }
    true
}

/// The blank-line-separated blocks of `v`, with block lines rejoined by
/// `'\n'`.
fn blocks_of(v: &Vec<char>) -> (r: Vec<Vec<char>>)
    ensures
        r@.map_values(|b: Vec<char>| b@) == blocks_spec(v@),
{
    let lines = split_lines(v);
    let ghost ls = lines@.map_values(|t: Vec<char>| t@);
    let mut blocks: Vec<Vec<char>> = Vec::new();
    let mut cur: Vec<char> = Vec::new();
    let mut i: usize = 0;
    assert(ls.skip(0) =~= ls);
    assert(blocks@.map_values(|b: Vec<char>| b@) =~= Seq::<Seq<char>>::empty());
    while i < lines.len()
        invariant
            i <= lines.len(),
            ls == lines@.map_values(|t: Vec<char>| t@),
            blocks_rec(ls.skip(i as int), cur@, blocks@.map_values(|b: Vec<char>| b@))
                == blocks_spec(v@),
        decreases lines.len() - i,
    {
        assert(ls.skip(i as int)[0] == ls[i as int]);
        assert(ls.skip(i as int).drop_first() =~= ls.skip(i as int + 1));
        let line = &lines[i];
        if blank_line(line) {
            if cur.len() > 0 {
                let done = cur;
                cur = Vec::new();
                let ghost bv = blocks@.map_values(|b: Vec<char>| b@);
                blocks.push(done);
                assert(blocks@.map_values(|b: Vec<char>| b@) =~= bv.push(done@));
            }
        } else {
            if cur.len() > 0 {
                let ghost cv = cur@;
                cur.push('\n');
                let mut p: usize = 0;
                while p < line.len()
                    invariant
                        p <= line.len(),
                        cur@ == cv + seq!['\n'] + line@.subrange(0, p as int),
                    decreases line.len() - p,
                {
                    cur.push(line[p]);
                    assert(cur@ =~= cv + seq!['\n'] + line@.subrange(0, p as int + 1));
                    p = p + 1;
                }
                assert(cur@ =~= cv + seq!['\n'] + ls[i as int]);
            } else {
                let mut p: usize = 0;
                while p < line.len()
                    invariant
                        p <= line.len(),
                        cur@ == line@.subrange(0, p as int),
                    decreases line.len() - p,
                {
                    cur.push(line[p]);
                    assert(cur@ =~= line@.subrange(0, p as int + 1));
                    p = p + 1;
                }
                assert(cur@ =~= ls[i as int]);
            }
        }
        i = i + 1;
    }
    assert(ls.skip(lines@.len() as int) =~= Seq::<Seq<char>>::empty());
    if cur.len() > 0 {
        let done = cur;
        let ghost bv = blocks@.map_values(|b: Vec<char>| b@);
        blocks.push(done);
        assert(blocks@.map_values(|b: Vec<char>| b@) =~= bv.push(done@));
    }
    blocks
}

/// The pieces of `v` split on `'.'`.
fn split_dots(v: &Vec<char>) -> (r: Vec<Vec<char>>)
    ensures
        r@.map_values(|t: Vec<char>| t@) == sentences_spec(v@),
{
    let ghost sv = v@;
    let mut parts: Vec<Vec<char>> = Vec::new();
    let mut cur: Vec<char> = Vec::new();
    let mut i: usize = 0;
    assert(sv.subrange(0, sv.len() as int) =~= sv);
    assert(parts@.map_values(|t: Vec<char>| t@) =~= Seq::<Seq<char>>::empty());
    while i < v.len()
        invariant
            i <= v.len(),
            dots_rec(
                sv.subrange(i as int, sv.len() as int),
                cur@,
                parts@.map_values(|t: Vec<char>| t@),
            ) == sentences_spec(sv),
        decreases v.len() - i,
    {
        let ghost rest = sv.subrange(i as int, sv.len() as int);
        assert(rest.drop_first() =~= sv.subrange(i as int + 1, sv.len() as int));
        let c = v[i];
        if c == '.' {
            let done = cur;
            cur = Vec::new();
            let ghost pv = parts@.map_values(|t: Vec<char>| t@);
            parts.push(done);
            assert(parts@.map_values(|t: Vec<char>| t@) =~= pv.push(done@));
        } else {
            cur.push(c);
        }
        i = i + 1;
    }
    assert(sv.subrange(sv.len() as int, sv.len() as int) =~= Seq::<char>::empty());
    {
        let done = cur;
        let ghost pv = parts@.map_values(|t: Vec<char>| t@);
        parts.push(done);
        assert(parts@.map_values(|t: Vec<char>| t@) =~= pv.push(done@));
    }
    parts
}

impl PdfProcessor {
    /// The paragraph candidates of one page, from its raw text.
    pub fn segment_paragraphs(page_text: &str) -> (r: Vec<String>)
        ensures
            r@.map_values(|p: String| p@) == paragraphs_spec(page_text@),
    {
        let v = chars_of(page_text);
        let ghost sv = v@;

        // Blank-line blocks in canonical form, above the noise floor.
        let blocks = blocks_of(&v);
        let ghost bs = blocks@.map_values(|b: Vec<char>| b@);
        let mut prim: Vec<Vec<char>> = Vec::new();
        let mut i: usize = 0;
        assert(bs.skip(0) =~= bs);
        while i < blocks.len()
            invariant
                i <= blocks.len(),
                bs == blocks@.map_values(|b: Vec<char>| b@),
                prim@.map_values(|p: Vec<char>| p@) + primary_rec(bs.skip(i as int)) == primary_rec(
                    bs,
                ),
            decreases blocks.len() - i,
        {
            assert(bs.skip(i as int)[0] == bs[i as int]);
            assert(bs.skip(i as int).drop_first() =~= bs.skip(i as int + 1));
            let p = normalize_vec(&blocks[i]);
            let ghost pv = prim@.map_values(|q: Vec<char>| q@);
            if p.len() > PARA_MIN_LEN {
                prim.push(p);
                assert(prim@.map_values(|q: Vec<char>| q@) =~= pv.push(normalize_spec(
                    bs[i as int],
                )));
                assert(pv.push(normalize_spec(bs[i as int])) + primary_rec(bs.skip(i as int + 1))
                    =~= pv + primary_rec(bs.skip(i as int)));
            } else {
                assert(pv + primary_rec(bs.skip(i as int + 1)) =~= pv + primary_rec(
                    bs.skip(i as int),
                ));
            }
            i = i + 1;
        }
        assert(bs.skip(blocks@.len() as int) =~= Seq::<Seq<char>>::empty());
        assert(prim@.map_values(|p: Vec<char>| p@) =~= prim@.map_values(|p: Vec<char>| p@)
            + primary_rec(Seq::empty()));
        assert(prim@.map_values(|p: Vec<char>| p@) == primary_rec(blocks_spec(sv)));

        if prim.len() > FALLBACK_MAX_SEGMENTS {
            let mut r: Vec<String> = Vec::new();
            let mut k: usize = 0;
            while k < prim.len()
                invariant
                    k <= prim.len(),
                    r@.map_values(|p: String| p@) == prim@.map_values(|p: Vec<char>| p@).subrange(
                        0,
                        k as int,
                    ),
                decreases prim.len() - k,
            {
                let ghost rv = r@.map_values(|p: String| p@);
                let s = string_of(&prim[k]);
                r.push(s);
                assert(r@.map_values(|p: String| p@) =~= rv.push(prim@[k as int]@));
                assert(rv.push(prim@[k as int]@) =~= prim@.map_values(|p: Vec<char>| p@).subrange(
                    0,
                    k as int + 1,
                ));
                k = k + 1;
            }
            assert(prim@.map_values(|p: Vec<char>| p@).subrange(0, prim@.len() as int) =~= prim@
                .map_values(|p: Vec<char>| p@));
            return r;
        }

        // Sentence-chunking tier over the canonical page text.
        let canon = normalize_vec(&v);
        let parts = split_dots(&canon);
        let ghost ps = parts@.map_values(|t: Vec<char>| t@);
        let mut usable: Vec<Vec<char>> = Vec::new();
        let mut k: usize = 0;
        assert(ps.skip(0) =~= ps);
        while k < parts.len()
            invariant
                k <= parts.len(),
                ps == parts@.map_values(|t: Vec<char>| t@),
                usable@.map_values(|t: Vec<char>| t@) + usable_rec(ps.skip(k as int)) == usable_rec(
                    ps,
                ),
            decreases parts.len() - k,
        {
            assert(ps.skip(k as int)[0] == ps[k as int]);
            assert(ps.skip(k as int).drop_first() =~= ps.skip(k as int + 1));
            let t = trim_ws_vec(&parts[k]);
            let ghost uv = usable@.map_values(|q: Vec<char>| q@);
            if t.len() > SENTENCE_MIN_LEN {
                usable.push(t);
                assert(usable@.map_values(|q: Vec<char>| q@) =~= uv.push(trim_ws(ps[k as int])));
                assert(uv.push(trim_ws(ps[k as int])) + usable_rec(ps.skip(k as int + 1)) =~= uv
                    + usable_rec(ps.skip(k as int)));
            } else {
                assert(uv + usable_rec(ps.skip(k as int + 1)) =~= uv + usable_rec(
                    ps.skip(k as int),
                ));
            }
            k = k + 1;
        }
        assert(ps.skip(parts@.len() as int) =~= Seq::<Seq<char>>::empty());
        assert(usable@.map_values(|t: Vec<char>| t@) =~= usable@.map_values(|t: Vec<char>| t@)
            + usable_rec(Seq::empty()));
        let ghost us = usable@.map_values(|t: Vec<char>| t@);
        assert(us == usable_rec(sentences_spec(normalize_spec(sv))));

        // Group sentences and keep chunks above the noise floor.
        let mut chunks: Vec<Vec<char>> = Vec::new();
        let mut k: usize = 0;
        assert(us.skip(0) =~= us);
        while k < usable.len()
            invariant
                k <= usable.len(),
                us == usable@.map_values(|t: Vec<char>| t@),
                chunks@.map_values(|t: Vec<char>| t@) + chunks_rec(us.skip(k as int)) == chunks_rec(
                    us,
                ),
            decreases usable.len() - k,
        {
            let take = if usable.len() - k >= SENTENCES_PER_CHUNK {
                SENTENCES_PER_CHUNK
            } else {
                usable.len() - k
            };
            let ghost group = us.skip(k as int).take(take as int);
            let mut joined: Vec<char> = Vec::new();
            let mut g: usize = 0;
            while g < take
                invariant
                    g <= take,
                    k + take <= usable.len(),
                    take >= 1,
                    us == usable@.map_values(|t: Vec<char>| t@),
                    group == us.skip(k as int).take(take as int),
                    joined@ == join_sentences(group.take(g as int)),
                decreases take - g,
            {
                let sent = &usable[k + g];
                assert(group[g as int] == us[k as int + g as int]);
                let ghost jv = joined@;
                if g > 0 {
                    joined.push('.');
                    joined.push(' ');
                }
                let mut p: usize = 0;
                let ghost jv2 = joined@;
                while p < sent.len()
                    invariant
                        p <= sent.len(),
                        joined@ == jv2 + sent@.subrange(0, p as int),
                    decreases sent.len() - p,
                {
                    joined.push(sent[p]);
                    assert(joined@ =~= jv2 + sent@.subrange(0, p as int + 1));
                    p = p + 1;
                }
                assert(joined@ =~= (if g == 0 {
                    jv + sent@
                } else {
                    jv + seq!['.', ' '] + sent@
                }));
                proof {
                    lemma_join_snoc(group.take(g as int), us[k as int + g as int]);
                    assert(group.take(g as int).push(us[k as int + g as int]) =~= group.take(
                        g as int + 1,
                    ));
                }
                g = g + 1;
            }
            assert(group.take(take as int) =~= group);
            assert(joined@ == join_sentences(group));

            assert(us.skip(k as int).skip(take as int) =~= us.skip(k as int + take as int));
            let ghost cv = chunks@.map_values(|t: Vec<char>| t@);
            if joined.len() > PARA_MIN_LEN {
                chunks.push(joined);
                assert(chunks@.map_values(|t: Vec<char>| t@) =~= cv.push(join_sentences(group)));
                assert(cv.push(join_sentences(group)) + chunks_rec(us.skip(k as int + take as int))
                    =~= cv + chunks_rec(us.skip(k as int)));
            } else {
                assert(cv + chunks_rec(us.skip(k as int + take as int)) =~= cv + chunks_rec(
                    us.skip(k as int),
                ));
            }
            k = k + take;
        }
        assert(us.skip(usable@.len() as int) =~= Seq::<Seq<char>>::empty());
        assert(chunks@.map_values(|t: Vec<char>| t@) =~= chunks@.map_values(|t: Vec<char>| t@)
            + chunks_rec(Seq::empty()));
        let ghost cs = chunks@.map_values(|t: Vec<char>| t@);
        assert(cs == chunks_rec(us));

        if chunks.len() > 0 {
            let mut r: Vec<String> = Vec::new();
            let mut q: usize = 0;
            while q < chunks.len()
                invariant
                    q <= chunks.len(),
                    cs == chunks@.map_values(|t: Vec<char>| t@),
                    r@.map_values(|p: String| p@) == cs.subrange(0, q as int),
                decreases chunks.len() - q,
            {
                let ghost rv = r@.map_values(|p: String| p@);
                let s = string_of(&chunks[q]);
                r.push(s);
                assert(r@.map_values(|p: String| p@) =~= rv.push(cs[q as int]));
                assert(rv.push(cs[q as int]) =~= cs.subrange(0, q as int + 1));
                q = q + 1;
            }
            assert(cs.subrange(0, cs.len() as int) =~= cs);
            return r;
        }
        if canon.len() > PARA_MIN_LEN {
            let mut r: Vec<String> = Vec::new();
            let s = string_of(&canon);
            r.push(s);
            assert(r@.map_values(|p: String| p@) =~= seq![normalize_spec(sv)]);
            return r;
        }
        // No tier produced anything: the primary segments (possibly none).
        let mut r: Vec<String> = Vec::new();
        let mut k2: usize = 0;
        while k2 < prim.len()
            invariant
                k2 <= prim.len(),
                r@.map_values(|p: String| p@) == prim@.map_values(|p: Vec<char>| p@).subrange(
                    0,
                    k2 as int,
                ),
            decreases prim.len() - k2,
        {
            let ghost rv = r@.map_values(|p: String| p@);
            let s = string_of(&prim[k2]);
            r.push(s);
            assert(r@.map_values(|p: String| p@) =~= rv.push(prim@[k2 as int]@));
            assert(rv.push(prim@[k2 as int]@) =~= prim@.map_values(|p: Vec<char>| p@).subrange(
                0,
                k2 as int + 1,
            ));
            k2 = k2 + 1;
        }
        assert(prim@.map_values(|p: Vec<char>| p@).subrange(0, prim@.len() as int) =~= prim@
            .map_values(|p: Vec<char>| p@));
        r
    }
}

proof fn lemma_join_snoc(ss: Seq<Seq<char>>, x: Seq<char>)
    ensures
        join_sentences(ss.push(x)) == if ss.len() == 0 {
            x
        } else {
            join_sentences(ss) + seq!['.', ' '] + x
        },
    decreases ss.len(),
{
    if ss.len() == 0 {
        assert(ss.push(x)[0] == x);
        assert(join_sentences(ss.push(x)) == x);
    } else {
        assert(ss.push(x).drop_first() =~= ss.drop_first().push(x));
        lemma_join_snoc(ss.drop_first(), x);
        if ss.len() == 1 {
            assert(ss.drop_first().len() == 0);
            assert(join_sentences(ss.push(x)) == ss[0] + seq!['.', ' '] + x);
            assert(join_sentences(ss) == ss[0]);
        } else {
            assert(join_sentences(ss) + seq!['.', ' '] + x =~= ss[0] + seq!['.', ' '] + (
            join_sentences(ss.drop_first()) + seq!['.', ' '] + x));
        }
    }
}

} // verus!
