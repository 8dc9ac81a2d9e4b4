use pdf_relevance::pipeline::PdfProcessor;

#[test]
fn blank_line_blocks_become_paragraphs() {
    let page = "First block with more than twenty chars\n\nSecond block easily exceeding twenty characters\n\nThird block also long enough to pass here";
    let ps = PdfProcessor::segment_paragraphs(page);
    assert_eq!(
        ps,
        vec![
            "First block with more than twenty chars".to_string(),
            "Second block easily exceeding twenty characters".to_string(),
            "Third block also long enough to pass here".to_string(),
        ],
    );
}

#[test]
fn short_blocks_fall_below_noise_floor() {
    let page = "tiny\n\nFirst real block with plenty of characters\n\nSecond real block with plenty of characters\n\nThird real block with plenty of characters";
    let ps = PdfProcessor::segment_paragraphs(page);
    assert_eq!(ps.len(), 3);
    assert_eq!(ps[0], "First real block with plenty of characters");
}

#[test]
fn sentence_chunking_when_no_breaks() {
    let page = "Alpha beta gamma delta one. Bravo charlie delta echo two. Charlie delta echo fox three. Delta echo fox golf four. Echo fox golf hotel five.";
    let ps = PdfProcessor::segment_paragraphs(page);
    assert_eq!(
        ps,
        vec![
            "Alpha beta gamma delta one. Bravo charlie delta echo two. Charlie delta echo fox three"
                .to_string(),
            "Delta echo fox golf four. Echo fox golf hotel five".to_string(),
        ],
    );
}

#[test]
fn whole_page_fallback() {
    let page = "tiny. bits. here. also. more";
    let ps = PdfProcessor::segment_paragraphs(page);
    assert_eq!(ps, vec!["tiny. bits. here. also. more".to_string()]);
}

#[test]
fn trivial_page_yields_nothing() {
    assert!(PdfProcessor::segment_paragraphs("").is_empty());
    assert!(PdfProcessor::segment_paragraphs("short. a").is_empty());
    assert!(PdfProcessor::segment_paragraphs(" \n \n ").is_empty());
}
