use pdf_relevance::pipeline::PdfProcessor;

#[test]
fn travel_planner_keywords() {
    let kws = PdfProcessor::extract_keywords_from_text("Travel Planner");
    assert_eq!(kws, vec!["travel".to_string(), "planner".to_string()]);
}

#[test]
fn empty_text_yields_no_keywords() {
    let kws = PdfProcessor::extract_keywords_from_text("");
    assert!(kws.is_empty());
}

#[test]
fn short_tokens_are_dropped() {
    let kws = PdfProcessor::extract_keywords_from_text("an HR guide to it");
    assert_eq!(kws, vec!["guide".to_string()]);
}

#[test]
fn punctuation_is_trimmed_and_duplicates_collapse() {
    let kws = PdfProcessor::extract_keywords_from_text("(Plan), plan! PLAN... budget;");
    assert_eq!(kws, vec!["plan".to_string(), "budget".to_string()]);
}

#[test]
fn numeric_tokens_count_as_keywords() {
    let kws = PdfProcessor::extract_keywords_from_text("Form 1040 filings");
    assert_eq!(
        kws,
        vec!["form".to_string(), "1040".to_string(), "filings".to_string()],
    );
}

#[test]
fn inner_punctuation_is_kept() {
    let kws = PdfProcessor::extract_keywords_from_text("co-op day-to-day");
    assert_eq!(kws, vec!["co-op".to_string(), "day-to-day".to_string()]);
}
