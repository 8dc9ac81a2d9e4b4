//! The processor type that owns the pipeline steps, and the per-document
//! and per-request assembly around them: headings plus relevant passages
//! from decoded pages, the OCR-text path, and the output aggregate.

use vstd::prelude::*;

use vstd::string::StringExecFns;

use crate::headings::headings_spec;
use crate::matching::kw_views;
use crate::models::{Document, ExtractedSection, InputJson, Metadata, OutputJson, PageText,
    SubsectionAnalysis};
use crate::paragraphs::paragraphs_spec;
use crate::relevance::{analysis_views, doc_entries_rec, lemma_page_entries_fields,
    page_entries_rec, para_relevant};

verus! {

/// Namespace for the extraction-and-relevance pipeline steps.
pub struct PdfProcessor;

/// Relies on chrono's `Utc::now` and `to_rfc3339`: the current UTC time
/// as an RFC 3339 timestamp. The result depends on the clock, so nothing
/// is promised of it.
#[verifier::external_body]
fn now_rfc3339() -> String {
    chrono::Utc::now().to_rfc3339()
}

/// Document, title, rank, and page of a heading entry.
pub open spec fn section_views(s: Seq<ExtractedSection>) -> Seq<(Seq<char>, Seq<char>, int, int)> {
    s.map_values(
        |e: ExtractedSection|
            (e.document@, e.section_title@, e.importance_rank as int, e.page_number as int),
    )
}

/// Heading titles turned into unranked section entries of one page.
pub open spec fn titles_to_sections(ts: Seq<Seq<char>>, doc: Seq<char>, pno: int) -> Seq<
    (Seq<char>, Seq<char>, int, int),
> {
    ts.map_values(|t: Seq<char>| (doc, t, 0int, pno))
}

/// The unranked section entries a document's pages contribute, in page
/// and discovery order.
pub open spec fn doc_sections_rec(pages: Seq<PageText>, doc: Seq<char>) -> Seq<
    (Seq<char>, Seq<char>, int, int),
>
    decreases pages.len(),
{
    if pages.len() == 0 {
        Seq::empty()
    } else {
        titles_to_sections(headings_spec(pages[0].text@), doc, pages[0].page_number as int)
            + doc_sections_rec(pages.drop_first(), doc)
    }
}

impl PdfProcessor {
    /// One decoded document's contribution: its headings as unranked
    /// section entries, and its relevant paragraphs as analysis entries.
    pub fn process_document(
        doc_name: &str,
        pages: &Vec<PageText>,
        persona_keywords: &Vec<String>,
        task_keywords: &Vec<String>,
    ) -> (r: (Vec<ExtractedSection>, Vec<SubsectionAnalysis>))
        ensures
            section_views(r.0@) == doc_sections_rec(pages@, doc_name@),
            analysis_views(r.1@) == doc_entries_rec(
                pages@,
                doc_name@,
                kw_views(persona_keywords@),
                kw_views(task_keywords@),
            ),
            forall|i: int|
                0 <= i < r.1@.len() ==> para_relevant(
                    (#[trigger] r.1@[i]).refined_text@,
                    kw_views(persona_keywords@),
                    kw_views(task_keywords@),
                ) && r.1@[i].document@ == doc_name@,
    {
        let ghost pgs = pages@;
        let mut secs: Vec<ExtractedSection> = Vec::new();
        let mut i: usize = 0;
        assert(pgs.skip(0) =~= pgs);
        assert(section_views(secs@) =~= Seq::<(Seq<char>, Seq<char>, int, int)>::empty());
        while i < pages.len()
            invariant
                i <= pages.len(),
                pgs == pages@,
                section_views(secs@) + doc_sections_rec(pgs.skip(i as int), doc_name@)
                    == doc_sections_rec(pgs, doc_name@),
            decreases pages.len() - i,
        {
            assert(pgs.skip(i as int)[0] == pgs[i as int]);
            assert(pgs.skip(i as int).drop_first() =~= pgs.skip(i as int + 1));
            let page = &pages[i];
            let hs = Self::extract_headings_from_page(page.text.as_str());
            let ghost hv = hs@.map_values(|t: String| t@);
            assert(hv == headings_spec(pgs[i as int].text@));
            let ghost base = section_views(secs@);
            let ghost mapped = titles_to_sections(hv, doc_name@, pgs[i as int].page_number as int);
            let mut j: usize = 0;
            assert(mapped.subrange(0, 0) =~= Seq::<(Seq<char>, Seq<char>, int, int)>::empty());
            assert(base + mapped.subrange(0, 0) =~= base);
            while j < hs.len()
                invariant
                    j <= hs.len(),
                    i < pages.len(),
                    pgs == pages@,
                    hv == hs@.map_values(|t: String| t@),
                    mapped == titles_to_sections(hv, doc_name@, pgs[i as int].page_number as int),
                    section_views(secs@) == base + mapped.subrange(0, j as int),
                decreases hs.len() - j,
            {
                let entry = ExtractedSection {
                    document: String::from_str(doc_name),
                    section_title: hs[j].clone(),
                    importance_rank: 0,
                    page_number: page.page_number,
                };
                let ghost sv = section_views(secs@);
                secs.push(entry);
                assert(section_views(secs@) =~= sv.push(mapped[j as int]));
                assert(sv.push(mapped[j as int]) =~= base + mapped.subrange(0, j as int + 1));
                j = j + 1;
            }
            assert(mapped.subrange(0, mapped.len() as int) =~= mapped);
            assert(section_views(secs@) + doc_sections_rec(pgs.skip(i as int + 1), doc_name@)
                =~= doc_sections_rec(pgs, doc_name@));
            i = i + 1;
        }
        assert(pgs.skip(pages@.len() as int) =~= Seq::<PageText>::empty());
        assert(section_views(secs@) =~= doc_sections_rec(pgs, doc_name@));

        let analysis = Self::find_relevant_content(
            doc_name,
            pages,
            persona_keywords,
            task_keywords,
        );
        (secs, analysis)
    }

    /// The analysis entries of OCR-recovered text, fed in as one synthetic
    /// page numbered 1. The OCR path derives no headings.
    pub fn process_ocr_text(
        doc_name: &str,
        ocr_text: &str,
        persona_keywords: &Vec<String>,
        task_keywords: &Vec<String>,
    ) -> (r: Vec<SubsectionAnalysis>)
        ensures
            analysis_views(r@) == page_entries_rec(
                paragraphs_spec(ocr_text@),
                doc_name@,
                1,
                kw_views(persona_keywords@),
                kw_views(task_keywords@),
            ),
            forall|i: int|
                0 <= i < r@.len() ==> (#[trigger] r@[i]).page_number == 1 && r@[i].document@
                    == doc_name@ && para_relevant(
                    r@[i].refined_text@,
                    kw_views(persona_keywords@),
                    kw_views(task_keywords@),
                ),
    {
        let ghost pks = kw_views(persona_keywords@);
        let ghost tks = kw_views(task_keywords@);
        let page = PageText { page_number: 1, text: String::from_str(ocr_text) };
        let mut pages: Vec<PageText> = Vec::new();
        pages.push(page);
        let r = Self::find_relevant_content(doc_name, &pages, persona_keywords, task_keywords);
        proof {
            assert(pages@.len() == 1);
            assert(pages@[0].text@ == ocr_text@);
            assert(pages@[0].page_number == 1);
            assert(pages@.drop_first() =~= Seq::<PageText>::empty());
            assert(doc_entries_rec(pages@, doc_name@, pks, tks) == page_entries_rec(
                paragraphs_spec(pages@[0].text@),
                doc_name@,
                pages@[0].page_number as int,
                pks,
                tks,
            ) + doc_entries_rec(pages@.drop_first(), doc_name@, pks, tks));
            assert(doc_entries_rec(pages@.drop_first(), doc_name@, pks, tks) =~= Seq::<
                (Seq<char>, Seq<char>, int),
            >::empty());
            assert(paragraphs_spec(pages@[0].text@) == paragraphs_spec(ocr_text@));
            assert(pages@[0].page_number as int == 1);
            assert(doc_entries_rec(pages@, doc_name@, pks, tks) =~= page_entries_rec(
                paragraphs_spec(ocr_text@),
                doc_name@,
                1,
                pks,
                tks,
            ));
            lemma_page_entries_fields(paragraphs_spec(ocr_text@), doc_name@, 1, pks, tks);
            assert forall|i: int| 0 <= i < r@.len() implies (#[trigger] r@[i]).page_number
                == 1 by {
                assert(analysis_views(r@)[i].2 == 1);
            }
        }
        r
    }

    /// The output aggregate: run metadata echoing the request, plus the
    /// ranked sections and analysis entries as given.
    pub fn build_output(
        input: &InputJson,
        extracted_sections: Vec<ExtractedSection>,
        subsection_analysis: Vec<SubsectionAnalysis>,
    ) -> (r: OutputJson)
        ensures
            r.metadata.input_documents@.map_values(|d: String| d@) == input.documents@.map_values(
                |d: Document| d.filename@,
            ),
            r.metadata.persona@ == input.persona.role@,
            r.metadata.job_to_be_done@ == input.job_to_be_done.task@,
            r.extracted_sections@ == extracted_sections@,
            r.subsection_analysis@ == subsection_analysis@,
    {
        let mut names: Vec<String> = Vec::new();
        let mut i: usize = 0;
        assert(names@.map_values(|d: String| d@) =~= Seq::<Seq<char>>::empty());
        while i < input.documents.len()
            invariant
                i <= input.documents.len(),
                names@.map_values(|d: String| d@) == input.documents@.map_values(
                    |d: Document| d.filename@,
                ).subrange(0, i as int),
            decreases input.documents.len() - i,
        {
            let ghost nv = names@.map_values(|d: String| d@);
            names.push(input.documents[i].filename.clone());
            assert(names@.map_values(|d: String| d@) =~= nv.push(
                input.documents@[i as int].filename@,
            ));
            assert(nv.push(input.documents@[i as int].filename@) =~= input.documents@.map_values(
                |d: Document| d.filename@,
            ).subrange(0, i as int + 1));
            i = i + 1;
        }
        assert(input.documents@.map_values(|d: Document| d.filename@).subrange(
            0,
            input.documents@.len() as int,
        ) =~= input.documents@.map_values(|d: Document| d.filename@));
        OutputJson {
            metadata: Metadata {
                input_documents: names,
                persona: input.persona.role.clone(),
                job_to_be_done: input.job_to_be_done.task.clone(),
                processing_timestamp: now_rfc3339(),
            },
            extracted_sections,
            subsection_analysis,
        }
    }
}

} // verus!
