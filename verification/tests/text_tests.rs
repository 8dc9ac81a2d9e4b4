use pdf_relevance::pipeline::PdfProcessor;
use pdf_relevance::utils::sanitize_filename;

#[test]
fn normalizer_collapses_whitespace() {
    let out = PdfProcessor::clean_extracted_text("  Hello \n\n  world \t again \n");
    assert_eq!(out, "Hello world again");
}

#[test]
fn normalizer_idempotent() {
    let once = PdfProcessor::clean_extracted_text("  Hello \n\n  world \t again \n");
    let twice = PdfProcessor::clean_extracted_text(&once);
    assert_eq!(twice, once);
}

#[test]
fn normalizer_idempotent_on_messy_input() {
    let raw = "line one\r\n\t line two  \n\n\n   line three\u{b}\u{c}end";
    let once = PdfProcessor::clean_extracted_text(raw);
    let twice = PdfProcessor::clean_extracted_text(&once);
    assert_eq!(twice, once);
}

#[test]
fn normalizer_empty_inputs() {
    assert_eq!(PdfProcessor::clean_extracted_text(""), "");
    assert_eq!(PdfProcessor::clean_extracted_text(" \n\t \r "), "");
}

#[test]
fn normalizer_plain_text_unchanged() {
    assert_eq!(PdfProcessor::clean_extracted_text("already clean"), "already clean");
}

#[test]
fn sanitize_replaces_non_alphanumerics() {
    assert_eq!(sanitize_filename("a-b c.pdf"), "a_b_c_pdf");
    assert_eq!(sanitize_filename("Report2024"), "Report2024");
    assert_eq!(sanitize_filename(""), "");
}
