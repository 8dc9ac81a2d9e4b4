use pdf_relevance::models::{PageText, SubsectionAnalysis};
use pdf_relevance::pipeline::PdfProcessor;

fn kws(words: &[&str]) -> Vec<String> {
    words.iter().map(|w| w.to_string()).collect()
}

#[test]
fn conjunctive_filter_requires_both_sets() {
    let pages = vec![
        PageText {
            page_number: 1,
            text: "The alpha quadrant and the beta sector are large today.".to_string(),
        },
        PageText {
            page_number: 2,
            text: "alpha only content sits here in this line today.".to_string(),
        },
    ];
    let r = PdfProcessor::find_relevant_content(
        "doc.pdf",
        &pages,
        &kws(&["alpha"]),
        &kws(&["beta"]),
    );
    assert_eq!(r.len(), 1);
    assert_eq!(r[0].document, "doc.pdf");
    assert_eq!(r[0].page_number, 1);
    assert_eq!(
        r[0].refined_text,
        "The alpha quadrant and the beta sector are large today",
    );
}

#[test]
fn no_keyword_sets_no_entries() {
    let pages = vec![PageText {
        page_number: 1,
        text: "The alpha quadrant and the beta sector are large today.".to_string(),
    }];
    let none: Vec<String> = Vec::new();
    let r = PdfProcessor::find_relevant_content("doc.pdf", &pages, &none, &kws(&["beta"]));
    assert!(r.is_empty());
}

#[test]
fn containment_is_substring_based() {
    // "plan" matches inside "planning": a documented looseness.
    let pages = vec![PageText {
        page_number: 4,
        text: "Careful planning makes the beta review go smoothly for everyone.".to_string(),
    }];
    let r = PdfProcessor::find_relevant_content(
        "doc.pdf",
        &pages,
        &kws(&["plan"]),
        &kws(&["beta"]),
    );
    assert_eq!(r.len(), 1);
    assert_eq!(r[0].page_number, 4);
}

#[test]
fn entries_keep_page_order() {
    let long_a = "The alpha item and the beta item meet in the first passage\n\nThe alpha tool and the beta tool meet in the second passage\n\nFiller block with no matching words inside it at all";
    let pages = vec![
        PageText { page_number: 2, text: long_a.to_string() },
        PageText {
            page_number: 5,
            text: "One more alpha and beta pairing shows up later on\n\nAnother filler block with no matching words inside it\n\nA third filler block with nothing of interest inside"
                .to_string(),
        },
    ];
    let r = PdfProcessor::find_relevant_content(
        "doc.pdf",
        &pages,
        &kws(&["alpha"]),
        &kws(&["beta"]),
    );
    let views: Vec<(u32, &str)> =
        r.iter().map(|e: &SubsectionAnalysis| (e.page_number, e.refined_text.as_str())).collect();
    assert_eq!(
        views,
        vec![
            (2, "The alpha item and the beta item meet in the first passage"),
            (2, "The alpha tool and the beta tool meet in the second passage"),
            (5, "One more alpha and beta pairing shows up later on"),
        ],
    );
}
