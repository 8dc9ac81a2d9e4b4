use pdf_relevance::pipeline::PdfProcessor;

#[test]
fn capitalized_phrase_with_colon() {
    let hs = PdfProcessor::extract_headings_from_page("Introduction:");
    assert_eq!(hs, vec!["Introduction".to_string()]);
}

#[test]
fn numbered_heading() {
    let hs = PdfProcessor::extract_headings_from_page("1. Getting Started");
    assert_eq!(hs, vec!["1. Getting Started".to_string()]);
}

#[test]
fn chapter_heading() {
    // The digit keeps the line out of the capitalized-phrase family, so
    // only the chapter family matches.
    let hs = PdfProcessor::extract_headings_from_page("Chapter 3 The Return");
    assert_eq!(hs, vec!["Chapter 3 The Return".to_string()]);
}

#[test]
fn all_caps_line_matches_two_families() {
    let hs = PdfProcessor::extract_headings_from_page("TABLE OF CONTENTS");
    assert_eq!(
        hs,
        vec!["TABLE OF CONTENTS".to_string(), "TABLE OF CONTENTS".to_string()],
    );
}

#[test]
fn family_order_is_kept_across_lines() {
    let page = "Introduction:\nsome body text here\nTABLE OF CONTENTS";
    let hs = PdfProcessor::extract_headings_from_page(page);
    assert_eq!(
        hs,
        vec![
            "Introduction".to_string(),
            "TABLE OF CONTENTS".to_string(),
            "TABLE OF CONTENTS".to_string(),
        ],
    );
}

#[test]
fn too_short_and_too_long_titles_are_discarded() {
    assert!(PdfProcessor::extract_headings_from_page("Abc").is_empty());
    let long = "A".repeat(100);
    assert!(PdfProcessor::extract_headings_from_page(&long).is_empty());
    let fits = "A".repeat(99);
    let hs = PdfProcessor::extract_headings_from_page(&fits);
    assert_eq!(hs, vec![fits.clone(), fits]);
}

#[test]
fn shortest_accepted_title_has_four_characters() {
    let hs = PdfProcessor::extract_headings_from_page("Abcd");
    assert_eq!(hs, vec!["Abcd".to_string()]);
}

#[test]
fn titles_are_trimmed_and_within_bounds() {
    let page = "Overview Of Things:\nCHECKLIST ITEMS\n2. Second Part";
    let hs = PdfProcessor::extract_headings_from_page(page);
    assert!(!hs.is_empty());
    for h in &hs {
        assert_eq!(h, h.trim());
        assert!(h.trim().len() >= 4);
        assert!(h.trim().len() < 100);
    }
}

#[test]
fn body_sentences_are_not_headings() {
    let page = "This line ends with a period.\nlowercase start line\n   indented Line";
    assert!(PdfProcessor::extract_headings_from_page(page).is_empty());
}
