//! A paper as the local checks read it: the fields that they look at, each
//! as it was found in the paper's JSON document (a missing field, or one of
//! another JSON type, is `None`).
use vstd::prelude::*;
use crate::expr::Ratio;

verus! {

/// A JSON number: its value as a non-negative integer when it is one (JSON
/// `as_u64`), and its exact value when it is in the range the checks compute in.
#[derive(Debug, Clone, Copy)]
pub struct JsonNumber {
    pub unsigned: Option<u64>,
    pub value: Option<Ratio>,
}

/// The heading of a paper (`meta`).
#[derive(Debug, Clone)]
pub struct ExamMeta {
    pub title: Option<String>,
    pub subject: Option<String>,
    pub edition: Option<String>,
    pub semester: Option<String>,
    pub grade: Option<JsonNumber>,
    pub total_score: Option<JsonNumber>,
    pub duration_min: Option<JsonNumber>,
}

/// One question of a paper. `answer_text` is the answer written as text
/// whatever its JSON type (a number in its JSON form, a missing answer empty).
#[derive(Debug, Clone)]
pub struct ExamItem {
    pub id: Option<String>,
    pub stem: Option<String>,
    pub answer: Option<String>,
    pub answer_text: String,
    pub analysis: Option<String>,
    /// The options, each `Some` when it is a string.
    pub options: Option<Vec<Option<String>>>,
    /// The knowledge points, each `Some` when it is a string.
    pub knowledge_points: Option<Vec<Option<String>>>,
    pub score: Option<JsonNumber>,
}

/// One section (大题) of a paper.
#[derive(Debug, Clone)]
pub struct ExamSection {
    pub title: Option<String>,
    pub section_type: Option<String>,
    pub score: Option<JsonNumber>,
    pub items: Option<Vec<ExamItem>>,
}

/// A paper.
#[derive(Debug, Clone)]
pub struct ExamPaper {
    pub meta: ExamMeta,
    pub sections: Option<Vec<ExamSection>>,
}

/// The items of a section, none when it has no item list.
pub open spec fn items_of(s: ExamSection) -> Seq<ExamItem> {
    match s.items {
        Some(v) => v@,
        None => Seq::empty(),
    }
}

/// The sections of a paper, none when it has no section list.
pub open spec fn sections_of(p: ExamPaper) -> Seq<ExamSection> {
    match p.sections {
        Some(v) => v@,
        None => Seq::empty(),
    }
}

/// The text of an optional string field, empty when missing.
pub open spec fn text_or_empty(o: Option<String>) -> Seq<char> {
    match o {
        Some(s) => s@,
        None => Seq::empty(),
    }
}

/// The value of an optional number field, when it is known.
pub open spec fn number_value(o: Option<JsonNumber>) -> Option<Ratio> {
    match o {
        Some(n) => n.value,
        None => None,
    }
}

/// The value of an optional non-negative integer field.
pub open spec fn number_unsigned(o: Option<JsonNumber>) -> Option<u64> {
    match o {
        Some(n) => n.unsigned,
        None => None,
    }
}

} // verus!
