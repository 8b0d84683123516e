//! Papers that the application lays out itself (from a template or from the
//! local bank), before they are shown or printed.
use vstd::prelude::*;
use crate::text::strings_view;

verus! {

/// One question of a laid-out paper.
#[derive(Debug, Clone)]
pub struct DraftItem {
    pub id: String,
    pub stem: String,
    pub options: Vec<String>,
    pub answer: String,
    pub analysis: String,
    pub score: u32,
    pub knowledge_points: Vec<String>,
}

/// One section (大题) of a laid-out paper.
#[derive(Debug, Clone)]
pub struct DraftSection {
    pub section_type: String,
    pub title: String,
    pub score: u32,
    pub items: Vec<DraftItem>,
}

/// The heading data of a laid-out paper.
#[derive(Debug, Clone)]
pub struct DraftMeta {
    pub edition: String,
    pub subject: String,
    pub grade: u8,
    pub semester: String,
    pub exam_type: String,
    pub title: String,
    pub total_score: u32,
    pub duration_min: u32,
    pub source: String,
    /// The template the paper was laid out from, if any.
    pub template_id: Option<String>,
    pub template_name: Option<String>,
}

/// A laid-out paper.
#[derive(Debug, Clone)]
pub struct DraftPaper {
    pub meta: DraftMeta,
    pub sections: Vec<DraftSection>,
}

/// Whether `it` has exactly these fields.
pub open spec fn item_is(
    it: DraftItem,
    id: Seq<char>,
    stem: Seq<char>,
    options: Seq<Seq<char>>,
    answer: Seq<char>,
    analysis: Seq<char>,
    score: u32,
    kps: Seq<Seq<char>>,
) -> bool {
    &&& it.id@ == id
    &&& it.stem@ == stem
    &&& strings_view(it.options@) == options
    &&& it.answer@ == answer
    &&& it.analysis@ == analysis
    &&& it.score == score
    &&& strings_view(it.knowledge_points@) == kps
}

pub fn new_item(
    id: String,
    stem: String,
    options: Vec<String>,
    answer: String,
    analysis: String,
    score: u32,
    knowledge_points: Vec<String>,
) -> (r: DraftItem)
    ensures
        item_is(
            r,
            id@,
            stem@,
            strings_view(options@),
            answer@,
            analysis@,
            score,
            strings_view(knowledge_points@),
        ),
{
    DraftItem { id, stem, options, answer, analysis, score, knowledge_points }
}

} // verus!
