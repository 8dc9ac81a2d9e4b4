//! Paragraph relevance filter: a paragraph is relevant iff its lowercased
//! text contains at least one persona keyword and at least one task
//! keyword. Relevant paragraphs become analysis entries in page and
//! discovery order; ties are never re-sorted.

use vstd::prelude::*;

use vstd::string::StringExecFns;

use crate::chars::lower_seq;
use crate::matching::{any_keyword_in, kw_views, lower_chars_of, matches_any};
use crate::models::{PageText, SubsectionAnalysis};
use crate::paragraphs::paragraphs_spec;
use crate::pipeline::PdfProcessor;

verus! {

/// The conjunctive relevance test: both keyword sets must hit.
pub open spec fn para_relevant(p: Seq<char>, pks: Seq<Seq<char>>, tks: Seq<Seq<char>>) -> bool {
    matches_any(pks, lower_seq(p)) && matches_any(tks, lower_seq(p))
}

/// Document, refined text, and page number of an analysis entry.
pub open spec fn entry_view(e: SubsectionAnalysis) -> (Seq<char>, Seq<char>, int) {
    (e.document@, e.refined_text@, e.page_number as int)
}

/// The views of a list of analysis entries.
pub open spec fn analysis_views(entries: Seq<SubsectionAnalysis>) -> Seq<
    (Seq<char>, Seq<char>, int),
> {
    entries.map_values(|e: SubsectionAnalysis| entry_view(e))
}

/// The entries one page contributes: its relevant paragraphs, in order.
pub open spec fn page_entries_rec(
    ps: Seq<Seq<char>>,
    doc: Seq<char>,
    page_no: int,
    pks: Seq<Seq<char>>,
    tks: Seq<Seq<char>>,
) -> Seq<(Seq<char>, Seq<char>, int)>
    decreases ps.len(),
{
    if ps.len() == 0 {
        Seq::empty()
    } else {
        let rest = page_entries_rec(ps.drop_first(), doc, page_no, pks, tks);
        if para_relevant(ps[0], pks, tks) {
            seq![(doc, ps[0], page_no)] + rest
        } else {
            rest
        }
    }
}

/// The entries a document contributes: its pages' entries, in page order.
pub open spec fn doc_entries_rec(
    pages: Seq<PageText>,
    doc: Seq<char>,
    pks: Seq<Seq<char>>,
    tks: Seq<Seq<char>>,
) -> Seq<(Seq<char>, Seq<char>, int)>
    decreases pages.len(),
{
    if pages.len() == 0 {
        Seq::empty()
    } else {
        page_entries_rec(
            paragraphs_spec(pages[0].text@),
            doc,
            pages[0].page_number as int,
            pks,
            tks,
        ) + doc_entries_rec(pages.drop_first(), doc, pks, tks)
    }
}

/// Every entry a page contributes carries that page's document and number.
pub proof fn lemma_page_entries_fields(
    ps: Seq<Seq<char>>,
    doc: Seq<char>,
    page_no: int,
    pks: Seq<Seq<char>>,
    tks: Seq<Seq<char>>,
)
    ensures
        forall|i: int|
            0 <= i < page_entries_rec(ps, doc, page_no, pks, tks).len() ==> (
            #[trigger] page_entries_rec(ps, doc, page_no, pks, tks)[i]).0 == doc
                && page_entries_rec(ps, doc, page_no, pks, tks)[i].2 == page_no,
    decreases ps.len(),
{
    if ps.len() > 0 {
        lemma_page_entries_fields(ps.drop_first(), doc, page_no, pks, tks);
        let whole = page_entries_rec(ps, doc, page_no, pks, tks);
        let rest = page_entries_rec(ps.drop_first(), doc, page_no, pks, tks);
        assert forall|i: int| 0 <= i < whole.len() implies (#[trigger] whole[i]).0 == doc
            && whole[i].2 == page_no by {
            if para_relevant(ps[0], pks, tks) {
                if i > 0 {
                    assert(whole[i] == rest[i - 1]);
                }
            } else {
                assert(whole[i] == rest[i]);
            }
        }
    }
}

impl PdfProcessor {
    /// The relevant paragraphs of a document's pages, as analysis entries
    /// in page and discovery order. Every entry's text contains at least
    /// one persona keyword and at least one task keyword.
    pub fn find_relevant_content(
        doc_name: &str,
        page_texts: &Vec<PageText>,
        persona_keywords: &Vec<String>,
        task_keywords: &Vec<String>,
    ) -> (r: Vec<SubsectionAnalysis>)
        ensures
            analysis_views(r@) == doc_entries_rec(
                page_texts@,
                doc_name@,
                kw_views(persona_keywords@),
                kw_views(task_keywords@),
            ),
            forall|i: int|
                0 <= i < r@.len() ==> para_relevant(
                    (#[trigger] r@[i]).refined_text@,
                    kw_views(persona_keywords@),
                    kw_views(task_keywords@),
                ) && r@[i].document@ == doc_name@,
    {
        let ghost pks = kw_views(persona_keywords@);
        let ghost tks = kw_views(task_keywords@);
        let ghost pgs = page_texts@;
        let mut r: Vec<SubsectionAnalysis> = Vec::new();
        let mut i: usize = 0;
        assert(pgs.skip(0) =~= pgs);
        assert(analysis_views(r@) =~= Seq::<(Seq<char>, Seq<char>, int)>::empty());
        while i < page_texts.len()
            invariant
                i <= page_texts.len(),
                pgs == page_texts@,
                analysis_views(r@) + doc_entries_rec(pgs.skip(i as int), doc_name@, pks, tks)
                    == doc_entries_rec(pgs, doc_name@, pks, tks),
                forall|q: int|
                    0 <= q < r@.len() ==> para_relevant((#[trigger] r@[q]).refined_text@, pks, tks)
                        && r@[q].document@ == doc_name@,
            decreases page_texts.len() - i,
        {
            assert(pgs.skip(i as int)[0] == pgs[i as int]);
            assert(pgs.skip(i as int).drop_first() =~= pgs.skip(i as int + 1));
            let page = &page_texts[i];
            let paras = Self::segment_paragraphs(page.text.as_str());
            let ghost pv = paras@.map_values(|p: String| p@);
            assert(pv == paragraphs_spec(pgs[i as int].text@));
            let mut j: usize = 0;
            assert(pv.skip(0) =~= pv);
            while j < paras.len()
                invariant
                    j <= paras.len(),
                    i < page_texts.len(),
                    pgs == page_texts@,
                    pv == paras@.map_values(|p: String| p@),
                    analysis_views(r@) + page_entries_rec(
                        pv.skip(j as int),
                        doc_name@,
                        pgs[i as int].page_number as int,
                        pks,
                        tks,
                    ) + doc_entries_rec(pgs.skip(i as int + 1), doc_name@, pks, tks)
                        == doc_entries_rec(pgs, doc_name@, pks, tks),
                    forall|q: int|
                        0 <= q < r@.len() ==> para_relevant(
                            (#[trigger] r@[q]).refined_text@,
                            pks,
                            tks,
                        ) && r@[q].document@ == doc_name@,
                decreases paras.len() - j,
            {
                assert(pv.skip(j as int)[0] == pv[j as int]);
                assert(pv.skip(j as int).drop_first() =~= pv.skip(j as int + 1));
                let low = lower_chars_of(paras[j].as_str());
                let persona_hit = any_keyword_in(persona_keywords, &low);
                let task_hit = any_keyword_in(task_keywords, &low);
                let ghost rv = analysis_views(r@);
                if persona_hit && task_hit {
                    let entry = SubsectionAnalysis {
                        document: String::from_str(doc_name),
                        refined_text: paras[j].clone(),
                        page_number: page.page_number,
                    };
                    r.push(entry);
                    assert(analysis_views(r@) =~= rv.push(
                        (doc_name@, pv[j as int], pgs[i as int].page_number as int),
                    ));
                    assert(rv.push((doc_name@, pv[j as int], pgs[i as int].page_number as int))
                        + page_entries_rec(
                        pv.skip(j as int + 1),
                        doc_name@,
                        pgs[i as int].page_number as int,
                        pks,
                        tks,
                    ) =~= rv + page_entries_rec(
                        pv.skip(j as int),
                        doc_name@,
                        pgs[i as int].page_number as int,
                        pks,
                        tks,
                    ));
                } else {
                    assert(rv + page_entries_rec(
                        pv.skip(j as int + 1),
                        doc_name@,
                        pgs[i as int].page_number as int,
                        pks,
                        tks,
                    ) =~= rv + page_entries_rec(
                        pv.skip(j as int),
                        doc_name@,
                        pgs[i as int].page_number as int,
                        pks,
                        tks,
                    ));
                }
                j = j + 1;
            }
            assert(pv.skip(paras@.len() as int) =~= Seq::<Seq<char>>::empty());
            i = i + 1;
        }
        assert(pgs.skip(page_texts@.len() as int) =~= Seq::<PageText>::empty());
        r
    }
}

} // verus!
