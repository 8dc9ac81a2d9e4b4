use pdf_relevance::models::{ExtractedSection, SubsectionAnalysis};
use pdf_relevance::pipeline::PdfProcessor;

fn kws(words: &[&str]) -> Vec<String> {
    words.iter().map(|w| w.to_string()).collect()
}

fn section(doc: &str, title: &str, page: u32) -> ExtractedSection {
    ExtractedSection {
        document: doc.to_string(),
        section_title: title.to_string(),
        importance_rank: 0,
        page_number: page,
    }
}

fn entry(doc: &str, text: &str, page: u32) -> SubsectionAnalysis {
    SubsectionAnalysis {
        document: doc.to_string(),
        refined_text: text.to_string(),
        page_number: page,
    }
}

#[test]
fn ranks_follow_descending_scores() {
    let mut sections = vec![
        section("b.pdf", "Low", 1),
        section("a.pdf", "High", 1),
        section("a.pdf", "Mid", 2),
    ];
    let analysis = vec![
        entry("a.pdf", "alpha beta here", 1),
        entry("a.pdf", "alpha beta again", 1),
        entry("a.pdf", "alpha beta once", 2),
    ];
    PdfProcessor::rank_sections(&mut sections, &analysis, &kws(&["alpha"]), &kws(&["beta"]));
    let views: Vec<(&str, u32)> =
        sections.iter().map(|s| (s.section_title.as_str(), s.importance_rank)).collect();
    assert_eq!(views, vec![("High", 1), ("Mid", 2), ("Low", 3)]);
}

#[test]
fn ranks_are_dense_one_based() {
    let mut sections = vec![
        section("a.pdf", "One", 1),
        section("a.pdf", "Two", 2),
        section("b.pdf", "Three", 3),
        section("c.pdf", "Four", 1),
    ];
    let analysis = vec![entry("b.pdf", "alpha beta", 3)];
    PdfProcessor::rank_sections(&mut sections, &analysis, &kws(&["alpha"]), &kws(&["beta"]));
    let mut ranks: Vec<u32> = sections.iter().map(|s| s.importance_rank).collect();
    ranks.sort();
    assert_eq!(ranks, vec![1, 2, 3, 4]);
}

#[test]
fn ties_keep_discovery_order() {
    let mut sections = vec![
        section("a.pdf", "First", 1),
        section("a.pdf", "Second", 1),
        section("a.pdf", "Third", 1),
    ];
    let analysis = vec![entry("a.pdf", "alpha beta", 1)];
    PdfProcessor::rank_sections(&mut sections, &analysis, &kws(&["alpha"]), &kws(&["beta"]));
    let views: Vec<(&str, u32)> =
        sections.iter().map(|s| (s.section_title.as_str(), s.importance_rank)).collect();
    assert_eq!(views, vec![("First", 1), ("Second", 2), ("Third", 3)]);
}

#[test]
fn empty_analysis_keeps_order() {
    let mut sections = vec![
        section("a.pdf", "One", 1),
        section("b.pdf", "Two", 1),
    ];
    let analysis: Vec<SubsectionAnalysis> = Vec::new();
    PdfProcessor::rank_sections(&mut sections, &analysis, &kws(&["alpha"]), &kws(&["beta"]));
    let views: Vec<(&str, u32)> =
        sections.iter().map(|s| (s.section_title.as_str(), s.importance_rank)).collect();
    assert_eq!(views, vec![("One", 1), ("Two", 2)]);
}

#[test]
fn scores_count_each_keyword_once_per_entry() {
    // "alpha alpha" counts the keyword once inside one entry, so two
    // entries on the other page outweigh it.
    let mut sections = vec![
        section("a.pdf", "Repeat", 1),
        section("a.pdf", "Spread", 2),
    ];
    let analysis = vec![
        entry("a.pdf", "alpha alpha alpha beta", 1),
        entry("a.pdf", "alpha beta", 2),
        entry("a.pdf", "alpha beta", 2),
    ];
    PdfProcessor::rank_sections(&mut sections, &analysis, &kws(&["alpha"]), &kws(&["beta"]));
    let views: Vec<(&str, u32)> =
        sections.iter().map(|s| (s.section_title.as_str(), s.importance_rank)).collect();
    assert_eq!(views, vec![("Spread", 1), ("Repeat", 2)]);
}
