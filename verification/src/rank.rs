//! Heading importance ranking: after all headings and analysis entries of
//! a request are collected, each heading is scored by the keyword
//! occurrences in the analysis entries that share its document and page,
//! the headings are ordered by descending score with ties kept in
//! discovery order, and dense 1-based ranks are assigned.

use vstd::prelude::*;

use crate::chars::lower_seq;
use crate::matching::{count_keywords_in, count_matches, kw_views, lemma_count_matches_bound,
    lower_chars_of};
use crate::models::{ExtractedSection, SubsectionAnalysis};
use crate::pipeline::PdfProcessor;

verus! {

/// The identity of a heading apart from its rank: document, title, page.
pub open spec fn section_key(s: ExtractedSection) -> (Seq<char>, Seq<char>, int) {
    (s.document@, s.section_title@, s.page_number as int)
}

/// Keyword occurrences, over both keyword sets, in the analysis entries
/// that share the given document and page.
pub open spec fn entry_score(
    doc: Seq<char>,
    page: int,
    analysis: Seq<SubsectionAnalysis>,
    pks: Seq<Seq<char>>,
    tks: Seq<Seq<char>>,
) -> nat
    decreases analysis.len(),
{
    if analysis.len() == 0 {
        0
    } else {
        let e = analysis[0];
        let rest = entry_score(doc, page, analysis.drop_first(), pks, tks);
        if e.document@ == doc && e.page_number as int == page {
            count_matches(pks, lower_seq(e.refined_text@)) + count_matches(
                tks,
                lower_seq(e.refined_text@),
            ) + rest
        } else {
            rest
        }
    }
}

/// A heading's relevance score.
pub open spec fn section_score(
    s: ExtractedSection,
    analysis: Seq<SubsectionAnalysis>,
    pks: Seq<Seq<char>>,
    tks: Seq<Seq<char>>,
) -> nat {
    entry_score(s.document@, s.page_number as int, analysis, pks, tks)
}

/// The heading at old position `a` is ranked ahead of the one at old
/// position `b`: its score is higher, or equal with `a` discovered first.
pub open spec fn rank_before(
    olds: Seq<ExtractedSection>,
    a: int,
    b: int,
    analysis: Seq<SubsectionAnalysis>,
    pks: Seq<Seq<char>>,
    tks: Seq<Seq<char>>,
) -> bool {
    let sa = section_score(olds[a], analysis, pks, tks);
    let sb = section_score(olds[b], analysis, pks, tks);
    sa > sb || (sa == sb && a < b)
}

/// `perm` carries the new order back to old positions: it is injective
/// into the old positions, keeps every heading's identity, and lists the
/// headings by descending score with ties in discovery order.
pub open spec fn stable_rank_perm(
    olds: Seq<ExtractedSection>,
    news: Seq<ExtractedSection>,
    perm: Seq<int>,
    analysis: Seq<SubsectionAnalysis>,
    pks: Seq<Seq<char>>,
    tks: Seq<Seq<char>>,
) -> bool {
    &&& perm.len() == olds.len()
    &&& news.len() == olds.len()
    &&& forall|i: int| 0 <= i < perm.len() ==> 0 <= #[trigger] perm[i] < olds.len()
    &&& forall|i: int, j: int| 0 <= i < j < perm.len() ==> perm[i] != perm[j]
    &&& forall|i: int|
        0 <= i < news.len() ==> section_key(#[trigger] news[i]) == section_key(olds[perm[i]])
    &&& forall|i: int, j: int|
        0 <= i < j < news.len() ==> rank_before(olds, perm[i], perm[j], analysis, pks, tks)
}

/// Dense ranking: when every position holds rank `position + 1` — as
/// `rank_sections` ensures — the importance ranks are exactly the values
/// `1` through `N` with no duplicates.
pub proof fn lemma_ranks_dense(secs: Seq<ExtractedSection>)
    requires
        forall|i: int| 0 <= i < secs.len() ==> (#[trigger] secs[i]).importance_rank == i + 1,
    ensures
        secs.map_values(|s: ExtractedSection| s.importance_rank as int).to_set() == Set::new(
            |v: int| 1 <= v <= secs.len(),
        ),
        forall|i: int, j: int|
            0 <= i < j < secs.len() ==> secs[i].importance_rank != secs[j].importance_rank,
{
    let m = secs.map_values(|s: ExtractedSection| s.importance_rank as int);
    assert forall|v: int| #[trigger] m.to_set().contains(v) implies 1 <= v <= secs.len() by {
        let i = choose|i: int| 0 <= i < m.len() && m[i] == v;
        assert(secs[i].importance_rank == i + 1);
    }
    assert forall|v: int| 1 <= v <= secs.len() implies #[trigger] m.to_set().contains(v) by {
        assert(m[v - 1] == v);
    }
    assert(m.to_set() =~= Set::new(|v: int| 1 <= v <= secs.len()));
}

proof fn lemma_entry_score_bound(
    doc: Seq<char>,
    page: int,
    analysis: Seq<SubsectionAnalysis>,
    pks: Seq<Seq<char>>,
    tks: Seq<Seq<char>>,
)
    ensures
        entry_score(doc, page, analysis, pks, tks) <= analysis.len() * (pks.len() + tks.len()),
    decreases analysis.len(),
{
    if analysis.len() == 0 {
    } else {
        lemma_entry_score_bound(doc, page, analysis.drop_first(), pks, tks);
        let e = analysis[0];
        lemma_count_matches_bound(pks, lower_seq(e.refined_text@));
        lemma_count_matches_bound(tks, lower_seq(e.refined_text@));
        assert((analysis.len() - 1) * (pks.len() + tks.len()) + (pks.len() + tks.len())
            == analysis.len() * (pks.len() + tks.len())) by (nonlinear_arith);
    }
}

proof fn lemma_mul_le(a: int, b: int, k: int)
    requires
        0 <= a <= b,
        0 <= k,
    ensures
        a * k <= b * k,
{
    assert(a * k <= b * k) by (nonlinear_arith)
        requires
            0 <= a <= b,
            0 <= k,
    ;
}

/// The score of one heading position against the collected analysis.
fn score_of(
    doc: &String,
    page: u32,
    analysis: &Vec<SubsectionAnalysis>,
    persona_keywords: &Vec<String>,
    task_keywords: &Vec<String>,
) -> (r: usize)
    requires
        analysis@.len() * (persona_keywords@.len() + task_keywords@.len()) <= usize::MAX,
    ensures
        r == entry_score(
            doc@,
            page as int,
            analysis@,
            kw_views(persona_keywords@),
            kw_views(task_keywords@),
        ),
{
    let ghost pks = kw_views(persona_keywords@);
    let ghost tks = kw_views(task_keywords@);
    let ghost kk = pks.len() + tks.len();
    let mut i: usize = analysis.len();
    let mut cnt: usize = 0;
    assert(analysis@.skip(analysis@.len() as int) =~= Seq::<SubsectionAnalysis>::empty());
    while i > 0
        invariant
            i <= analysis.len(),
            cnt == entry_score(doc@, page as int, analysis@.skip(i as int), pks, tks),
        decreases i,
    {
        assert(analysis@.skip(i as int - 1).drop_first() =~= analysis@.skip(i as int));
        assert(analysis@.skip(i as int - 1)[0] == analysis@[i as int - 1]);
        let e = &analysis[i - 1];
        if e.document.eq(doc) && e.page_number == page {
            let low = lower_chars_of(e.refined_text.as_str());
            let pc = count_keywords_in(persona_keywords, &low);
            let tc = count_keywords_in(task_keywords, &low);
            proof {
                lemma_entry_score_bound(doc@, page as int, analysis@.skip(i as int - 1), pks, tks);
                lemma_mul_le(analysis@.skip(i as int - 1).len() as int, analysis@.len() as int, kk as int);
            }
            cnt = cnt + pc + tc;
        }
        i = i - 1;
    }
    assert(analysis@.skip(0) =~= analysis@);
    cnt
}

impl PdfProcessor {
    /// Orders the headings by descending relevance score — ties kept in
    /// discovery order — and assigns dense 1-based importance ranks in
    /// that order.
    pub fn rank_sections(
        sections: &mut Vec<ExtractedSection>,
        analysis: &Vec<SubsectionAnalysis>,
        persona_keywords: &Vec<String>,
        task_keywords: &Vec<String>,
    )
        requires
            old(sections)@.len() <= u32::MAX,
            analysis@.len() * (persona_keywords@.len() + task_keywords@.len()) <= usize::MAX,
        ensures
            final(sections)@.len() == old(sections)@.len(),
            forall|i: int|
                0 <= i < final(sections)@.len() ==> (#[trigger] final(sections)@[i]).importance_rank
                    == i + 1,
            exists|perm: Seq<int>|
                stable_rank_perm(
                    old(sections)@,
                    final(sections)@,
                    perm,
                    analysis@,
                    kw_views(persona_keywords@),
                    kw_views(task_keywords@),
                ),
    {
        let ghost orig = sections@;
        let ghost pks = kw_views(persona_keywords@);
        let ghost tks = kw_views(task_keywords@);
        let ghost n = orig.len();

        // Pair each heading with its score and discovery position.
        let mut work: Vec<(ExtractedSection, usize, usize)> = Vec::new();
        let mut idx: usize = 0;
        assert(orig.skip(0) =~= orig);
        while sections.len() > 0
            invariant
                idx == work@.len(),
                idx + sections@.len() == n,
                sections@ == orig.skip(idx as int),
                analysis@.len() * (persona_keywords@.len() + task_keywords@.len()) <= usize::MAX,
                forall|m: int|
                    0 <= m < work@.len() ==> (#[trigger] work@[m]).2 == m && work@[m].0 == orig[m]
                        && work@[m].1 == section_score(orig[m], analysis@, pks, tks),
            decreases sections@.len(),
        {
            assert(orig.skip(idx as int)[0] == orig[idx as int]);
            assert(orig.skip(idx as int).drop_first() =~= orig.skip(idx as int + 1));
            let e = sections.remove(0);
            let s = score_of(&e.document, e.page_number, analysis, persona_keywords, task_keywords);
            work.push((e, s, idx));
            idx = idx + 1;
        }
        assert(sections@.len() == 0);

        // Stable selection: repeatedly move the first highest-scored
        // heading over.
        let mut out: Vec<(ExtractedSection, usize, usize)> = Vec::new();
        while work.len() > 0
            invariant
                out@.len() + work@.len() == n,
                forall|m: int|
                    0 <= m < work@.len() ==> 0 <= (#[trigger] work@[m]).2 < n && work@[m].0
                        == orig[work@[m].2 as int] && work@[m].1 == section_score(
                        orig[work@[m].2 as int],
                        analysis@,
                        pks,
                        tks,
                    ),
                forall|m1: int, m2: int|
                    0 <= m1 < m2 < work@.len() ==> (#[trigger] work@[m1]).2 < (
                    #[trigger] work@[m2]).2,
                forall|m: int|
                    0 <= m < out@.len() ==> 0 <= (#[trigger] out@[m]).2 < n && out@[m].0
                        == orig[out@[m].2 as int] && out@[m].1 == section_score(
                        orig[out@[m].2 as int],
                        analysis@,
                        pks,
                        tks,
                    ),
                forall|a: int, b: int|
                    0 <= a < out@.len() && 0 <= b < work@.len() ==> (#[trigger] out@[a]).2 != (
                    #[trigger] work@[b]).2,
                forall|a1: int, a2: int|
                    0 <= a1 < a2 < out@.len() ==> (#[trigger] out@[a1]).2 != (
                    #[trigger] out@[a2]).2,
                forall|a1: int, a2: int|
                    0 <= a1 < a2 < out@.len() ==> rank_before(
                        orig,
                        (#[trigger] out@[a1]).2 as int,
                        (#[trigger] out@[a2]).2 as int,
                        analysis@,
                        pks,
                        tks,
                    ),
                forall|a: int, b: int|
                    0 <= a < out@.len() && 0 <= b < work@.len() ==> rank_before(
                        orig,
                        (#[trigger] out@[a]).2 as int,
                        (#[trigger] work@[b]).2 as int,
                        analysis@,
                        pks,
                        tks,
                    ),
            decreases work@.len(),
        {
            let mut best: usize = 0;
            let mut j: usize = 1;
            while j < work.len()
                invariant
                    best < j <= work@.len(),
                    work@.len() > 0,
                    forall|p: int|
                        0 <= p < j ==> (#[trigger] work@[p]).1 < work@[best as int].1 || (
                        work@[p].1 == work@[best as int].1 && best <= p),
                decreases work@.len() - j,
            {
                if work[j].1 > work[best].1 {
                    best = j;
                }
                j = j + 1;
            }
            let ghost wpre = work@;
            let ghost opre = out@;
            let chosen = work.remove(best);
            out.push(chosen);
            proof {
                assert(out@ =~= opre.push(wpre[best as int]));
                assert(work@ =~= wpre.remove(best as int));
                // Every element left in `work` sits at or after the first
                // maximum, so the chosen heading ranks ahead of it.
                assert forall|b: int| 0 <= b < work@.len() implies rank_before(
                    orig,
                    wpre[best as int].2 as int,
                    (#[trigger] work@[b]).2 as int,
                    analysis@,
                    pks,
                    tks,
                ) by {
                    let pb: int = if b < best {
                        b
                    } else {
                        b + 1
                    };
                    assert(work@[b] == wpre[pb]);
                    if wpre[pb].1 == wpre[best as int].1 {
                        assert(best as int <= pb);
                        assert(pb != best);
                        assert(wpre[best as int].2 < wpre[pb].2);
                    }
                }
            }
        }
        assert(work@.len() == 0);
        let ghost sorted = out@;

        // Dense 1-based ranks in sorted order.
        let ghost mut perm: Seq<int> = Seq::empty();
        let mut i: usize = 0;
        while out.len() > 0
            invariant
                i == sections@.len(),
                i + out@.len() == n,
                n <= u32::MAX,
                out@ == sorted.skip(i as int),
                perm.len() == i,
                forall|m: int| 0 <= m < i ==> #[trigger] perm[m] == sorted[m].2 as int,
                forall|m: int|
                    0 <= m < i ==> (#[trigger] sections@[m]).importance_rank == m + 1
                        && section_key(sections@[m]) == section_key(orig[sorted[m].2 as int]),
            decreases out@.len(),
        {
            assert(sorted.skip(i as int)[0] == sorted[i as int]);
            assert(sorted.skip(i as int).drop_first() =~= sorted.skip(i as int + 1));
            let (sec, _score, gidx) = out.remove(0);
            let rank: u32 = (i as u32) + 1;
            let ranked = ExtractedSection {
                document: sec.document,
                section_title: sec.section_title,
                importance_rank: rank,
                page_number: sec.page_number,
            };
            sections.push(ranked);
            proof {
                perm = perm.push(gidx as int);
            }
            i = i + 1;
        }
        proof {
            assert forall|a: int, b: int| 0 <= a < b < sections@.len() implies rank_before(
                orig,
                perm[a],
                perm[b],
                analysis@,
                pks,
                tks,
            ) by {
                assert(perm[a] == sorted[a].2 as int);
                assert(perm[b] == sorted[b].2 as int);
            }
            assert(stable_rank_perm(orig, sections@, perm, analysis@, pks, tks));
        }
    }
}

} // verus!
