//! Data model of a run: the request, the per-page text units, the decoded
//! content-stream operations, and the output aggregate.

use vstd::prelude::*;

verus! {

/// Root directory that holds one subdirectory per document collection.
pub struct Config {
    pub collections_dir: String,
}

/// Identification block of a request.
pub struct ChallengeInfo {
    pub challenge_id: String,
    pub test_case_name: String,
    pub description: Option<String>,
}

/// One document named by a request.
pub struct Document {
    pub filename: String,
    pub title: String,
}

/// The role against which relevance is judged.
pub struct Persona {
    pub role: String,
}

/// The free-text statement of what the persona is trying to accomplish.
pub struct JobToBeDone {
    pub task: String,
}

/// A parsed request: documents plus the persona/task query.
pub struct InputJson {
    pub challenge_info: ChallengeInfo,
    pub documents: Vec<Document>,
    pub persona: Persona,
    pub job_to_be_done: JobToBeDone,
}

/// A heading found on a page, with its post-hoc importance rank.
pub struct ExtractedSection {
    pub document: String,
    pub section_title: String,
    pub importance_rank: u32,
    pub page_number: u32,
}

/// A paragraph that passed the relevance filter.
pub struct SubsectionAnalysis {
    pub document: String,
    pub refined_text: String,
    pub page_number: u32,
}

/// Run metadata echoed into the output aggregate.
pub struct Metadata {
    pub input_documents: Vec<String>,
    pub persona: String,
    pub job_to_be_done: String,
    pub processing_timestamp: String,
}

/// The output aggregate of one run.
pub struct OutputJson {
    pub metadata: Metadata,
    pub extracted_sections: Vec<ExtractedSection>,
    pub subsection_analysis: Vec<SubsectionAnalysis>,
}

/// The raw decoded text of one page; `page_number` is 1-based and unique
/// per document.
pub struct PageText {
    pub page_number: u32,
    pub text: String,
}

/// One run inside an adjusted text-showing operation: either a decoded
/// string run or a pure positioning adjustment.
pub enum AdjustedItem {
    Run(String),
    Shift,
}

/// A content-stream operation reduced to what text reconstruction reads:
/// decoded text-showing operations, explicit newlines, and text-position
/// moves with their vertical displacement in whole text-space units.
pub enum TextOp {
    Draw(String),
    DrawAdjusted(Vec<AdjustedItem>),
    Newline,
    MoveText { dy: i64 },
}

} // verus!
