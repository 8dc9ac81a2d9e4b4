use pdf_relevance::models::{AdjustedItem, ChallengeInfo, Document, InputJson, JobToBeDone,
    PageText, Persona, TextOp};
use pdf_relevance::pipeline::PdfProcessor;

fn kws(words: &[&str]) -> Vec<String> {
    words.iter().map(|w| w.to_string()).collect()
}

#[test]
fn decoder_draws_breaks_and_adjusted_runs() {
    let ops = vec![
        TextOp::Draw("Hello world of text".to_string()),
        TextOp::MoveText { dy: -20 },
        TextOp::DrawAdjusted(vec![
            AdjustedItem::Run("Second".to_string()),
            AdjustedItem::Shift,
            AdjustedItem::Run("paragraph".to_string()),
        ]),
        TextOp::Newline,
        TextOp::Draw("next line".to_string()),
        TextOp::MoveText { dy: 5 },
        TextOp::Draw(" same paragraph".to_string()),
    ];
    let pages = PdfProcessor::decode_document_pages(&vec![ops]);
    assert_eq!(pages.len(), 1);
    assert_eq!(pages[0].page_number, 1);
    assert_eq!(
        pages[0].text,
        "Hello world of text\n\nSecond paragraph\nnext line same paragraph",
    );
}

#[test]
fn small_moves_break_nothing_large_moves_break_paragraphs() {
    let ops = vec![
        TextOp::Draw("a".to_string()),
        TextOp::MoveText { dy: 12 },
        TextOp::Draw("b".to_string()),
        TextOp::MoveText { dy: 13 },
        TextOp::Draw("c".to_string()),
        TextOp::MoveText { dy: -13 },
        TextOp::Draw("d".to_string()),
    ];
    let mut text = String::new();
    PdfProcessor::extract_text_from_content(&ops, &mut text);
    assert_eq!(text, "ab\n\nc\n\nd");
}

#[test]
fn whitespace_only_pages_are_dropped() {
    let pages = PdfProcessor::decode_document_pages(&vec![
        vec![TextOp::Draw("   ".to_string()), TextOp::Newline],
        vec![],
        vec![TextOp::Draw("Real content on the third page".to_string())],
    ]);
    assert_eq!(pages.len(), 1);
    assert_eq!(pages[0].page_number, 3);
    assert_eq!(pages[0].text, "Real content on the third page");
}

#[test]
fn fully_empty_document_yields_no_pages() {
    // A document in this state is what sends the caller to the OCR
    // fallback.
    let pages = PdfProcessor::decode_document_pages(&vec![
        vec![TextOp::Draw(" \n ".to_string())],
        vec![],
    ]);
    assert!(pages.is_empty());
}

#[test]
fn ocr_text_counts_as_page_one() {
    let r = PdfProcessor::process_ocr_text(
        "scanned.pdf",
        "The alpha item and the beta item belong together in this report.",
        &kws(&["alpha"]),
        &kws(&["beta"]),
    );
    assert_eq!(r.len(), 1);
    assert_eq!(r[0].page_number, 1);
    assert_eq!(r[0].document, "scanned.pdf");
}

#[test]
fn failed_document_contributes_nothing() {
    let pages: Vec<PageText> = Vec::new();
    let (sections, analysis) = PdfProcessor::process_document(
        "broken.pdf",
        &pages,
        &kws(&["alpha"]),
        &kws(&["beta"]),
    );
    assert!(sections.is_empty());
    assert!(analysis.is_empty());
}

#[test]
fn onboarding_checklist_heading_ranks_first() {
    let pages = vec![PageText {
        page_number: 1,
        text: "ONBOARDING CHECKLIST\n\nPlease complete this onboarding form before your first day."
            .to_string(),
    }];
    let pk = PdfProcessor::extract_keywords_from_text("HR Professional");
    let tk = PdfProcessor::extract_keywords_from_text("Create onboarding forms");
    assert_eq!(pk, vec!["professional".to_string()]);
    assert_eq!(
        tk,
        vec!["create".to_string(), "onboarding".to_string(), "forms".to_string()],
    );
    let (mut sections, analysis) =
        PdfProcessor::process_document("hr_onboarding.pdf", &pages, &pk, &tk);
    PdfProcessor::rank_sections(&mut sections, &analysis, &pk, &tk);
    assert!(!sections.is_empty());
    assert_eq!(sections[0].section_title, "ONBOARDING CHECKLIST");
    assert_eq!(sections[0].importance_rank, 1);
    assert_eq!(sections[0].page_number, 1);
    // The page text holds no persona keyword ("professional"), so the
    // conjunctive filter admits no analysis entry for it.
    assert!(analysis.is_empty());
}

#[test]
fn onboarding_form_passage_is_reported_when_both_sets_hit() {
    let pages = vec![PageText {
        page_number: 1,
        text: "Every HR professional should review this onboarding form checklist\n\nSecond filler block with enough characters to pass the noise floor\n\nThird filler block also has enough characters to pass the floor"
            .to_string(),
    }];
    let pk = PdfProcessor::extract_keywords_from_text("HR Professional");
    let tk = PdfProcessor::extract_keywords_from_text("Create onboarding forms");
    let (mut sections, analysis) =
        PdfProcessor::process_document("hr_onboarding.pdf", &pages, &pk, &tk);
    assert_eq!(analysis.len(), 1);
    assert!(analysis[0].refined_text.contains("onboarding form"));
    assert_eq!(analysis[0].page_number, 1);
    PdfProcessor::rank_sections(&mut sections, &analysis, &pk, &tk);
    assert_eq!(sections[0].importance_rank, 1);
}

#[test]
fn end_to_end_from_text_operations_to_output() {
    let ops = vec![
        TextOp::Draw("ONBOARDING CHECKLIST".to_string()),
        TextOp::MoveText { dy: -20 },
        TextOp::Draw(
            "Please complete this onboarding form before your first day.".to_string(),
        ),
    ];
    let pages = PdfProcessor::decode_document_pages(&vec![ops]);
    assert_eq!(pages.len(), 1);

    let input = InputJson {
        challenge_info: ChallengeInfo {
            challenge_id: "round_y".to_string(),
            test_case_name: "onboarding".to_string(),
            description: None,
        },
        documents: vec![Document {
            filename: "hr_onboarding.pdf".to_string(),
            title: "Onboarding".to_string(),
        }],
        persona: Persona { role: "HR Professional".to_string() },
        job_to_be_done: JobToBeDone { task: "Create onboarding forms".to_string() },
    };
    let pk = PdfProcessor::extract_keywords_from_text(&input.persona.role);
    let tk = PdfProcessor::extract_keywords_from_text(&input.job_to_be_done.task);
    let (mut sections, analysis) =
        PdfProcessor::process_document(&input.documents[0].filename, &pages, &pk, &tk);
    PdfProcessor::rank_sections(&mut sections, &analysis, &pk, &tk);
    let out = PdfProcessor::build_output(&input, sections, analysis);

    assert_eq!(out.metadata.input_documents, vec!["hr_onboarding.pdf".to_string()]);
    assert_eq!(out.extracted_sections[0].section_title, "ONBOARDING CHECKLIST");
    assert_eq!(out.extracted_sections[0].importance_rank, 1);
    assert_eq!(out.extracted_sections[0].page_number, 1);
    assert_eq!(out.extracted_sections[0].document, "hr_onboarding.pdf");
}

#[test]
fn output_echoes_request_metadata() {
    let input = InputJson {
        challenge_info: ChallengeInfo {
            challenge_id: "round_x".to_string(),
            test_case_name: "case".to_string(),
            description: None,
        },
        documents: vec![
            Document { filename: "one.pdf".to_string(), title: "One".to_string() },
            Document { filename: "two.pdf".to_string(), title: "Two".to_string() },
        ],
        persona: Persona { role: "Travel Planner".to_string() },
        job_to_be_done: JobToBeDone { task: "Plan a trip".to_string() },
    };
    let out = PdfProcessor::build_output(&input, Vec::new(), Vec::new());
    assert_eq!(
        out.metadata.input_documents,
        vec!["one.pdf".to_string(), "two.pdf".to_string()],
    );
    assert_eq!(out.metadata.persona, "Travel Planner");
    assert_eq!(out.metadata.job_to_be_done, "Plan a trip");
    assert!(out.extracted_sections.is_empty());
    assert!(out.subsection_analysis.is_empty());
}
