//! Domain entities and the storage-level error taxonomy.
//!
//! Questions and answers are the two resources of the service. The input
//! shapes (`Question`, `Answer`) carry what a caller supplies; the detail
//! shapes (`QuestionDetail`, `AnswerDetail`) add the identifier and the
//! creation timestamp that the storage layer assigns.

use vstd::prelude::*;

verus! {

/// Input shape for creating a question: no identifier, storage assigns one.
#[derive(Clone, Debug, PartialEq, Eq)]
pub struct Question {
    pub title: String,
    pub description: String,
}

/// Persisted projection of a question, owned by storage.
#[derive(Clone, Debug, PartialEq, Eq)]
pub struct QuestionDetail {
    pub question_uuid: String,
    pub title: String,
    pub description: String,
    pub created_at: String,
}

/// Input shape for creating an answer; `question_uuid` must reference an
/// existing question.
#[derive(Clone, Debug, PartialEq, Eq)]
pub struct Answer {
    pub question_uuid: String,
    pub content: String,
}

/// Persisted projection of an answer.
#[derive(Clone, Debug, PartialEq, Eq)]
pub struct AnswerDetail {
    pub answer_uuid: String,
    pub question_uuid: String,
    pub content: String,
    pub created_at: String,
}

/// Storage-level error taxonomy: a malformed or unresolvable identifier,
/// or any other storage failure with its rendered cause.
#[derive(Clone, Debug, PartialEq, Eq)]
pub enum DBError {
    InvalidUUID(String),
    Other(String),
}

/// Mathematical value of a `Question`: its fields as character sequences.
pub struct QuestionV {
    pub title: Seq<char>,
    pub description: Seq<char>,
}

/// Mathematical value of a `QuestionDetail`.
pub struct QuestionDetailV {
    pub question_uuid: Seq<char>,
    pub title: Seq<char>,
    pub description: Seq<char>,
    pub created_at: Seq<char>,
}

/// Mathematical value of an `Answer`.
pub struct AnswerV {
    pub question_uuid: Seq<char>,
    pub content: Seq<char>,
}

/// Mathematical value of an `AnswerDetail`.
pub struct AnswerDetailV {
    pub answer_uuid: Seq<char>,
    pub question_uuid: Seq<char>,
    pub content: Seq<char>,
    pub created_at: Seq<char>,
}

impl View for Question {
    type V = QuestionV;

    open spec fn view(&self) -> QuestionV {
        QuestionV { title: self.title@, description: self.description@ }
    }
}

impl View for QuestionDetail {
    type V = QuestionDetailV;

    open spec fn view(&self) -> QuestionDetailV {
        QuestionDetailV {
            question_uuid: self.question_uuid@,
            title: self.title@,
            description: self.description@,
            created_at: self.created_at@,
        }
    }
}

impl View for Answer {
    type V = AnswerV;

    open spec fn view(&self) -> AnswerV {
        AnswerV { question_uuid: self.question_uuid@, content: self.content@ }
    }
}

impl View for AnswerDetail {
    type V = AnswerDetailV;

    open spec fn view(&self) -> AnswerDetailV {
        AnswerDetailV {
            answer_uuid: self.answer_uuid@,
            question_uuid: self.question_uuid@,
            content: self.content@,
            created_at: self.created_at@,
        }
    }
}

impl DeepView for Question {
    type V = QuestionV;

    open spec fn deep_view(&self) -> QuestionV {
        self.view()
    }
}

impl DeepView for QuestionDetail {
    type V = QuestionDetailV;

    open spec fn deep_view(&self) -> QuestionDetailV {
        self.view()
    }
}

impl DeepView for Answer {
    type V = AnswerV;

    open spec fn deep_view(&self) -> AnswerV {
        self.view()
    }
}

impl DeepView for AnswerDetail {
    type V = AnswerDetailV;

    open spec fn deep_view(&self) -> AnswerDetailV {
        self.view()
    }
}

/// The detail reported when an identifier string is not a UUID.
pub open spec fn invalid_uuid_detail() -> Seq<char> {
    "malformed UUID string"@
}

/// The detail reported when an answer references a question that does not
/// exist: the foreign-key rule.
pub open spec fn unknown_question_detail() -> Seq<char> {
    "referenced question does not exist"@
}

/// The storage error for a malformed identifier string.
pub fn invalid_uuid_error() -> (e: DBError)
    ensures
        e matches DBError::InvalidUUID(m) && m@ == invalid_uuid_detail(),
{
    DBError::InvalidUUID("malformed UUID string".to_owned())
}

/// The storage error for an answer whose question does not exist.
pub fn unknown_question_error() -> (e: DBError)
    ensures
        e matches DBError::InvalidUUID(m) && m@ == unknown_question_detail(),
{
    DBError::InvalidUUID("referenced question does not exist".to_owned())
}

/// Copies a question detail field by field, keeping every field's value.
pub fn clone_question_detail(q: &QuestionDetail) -> (r: QuestionDetail)
    ensures
        r@ == q@,
{
    QuestionDetail {
        question_uuid: q.question_uuid.clone(),
        title: q.title.clone(),
        description: q.description.clone(),
        created_at: q.created_at.clone(),
    }
}

/// Copies an answer detail field by field, keeping every field's value.
pub fn clone_answer_detail(a: &AnswerDetail) -> (r: AnswerDetail)
    ensures
        r@ == a@,
{
    AnswerDetail {
        answer_uuid: a.answer_uuid.clone(),
        question_uuid: a.question_uuid.clone(),
        content: a.content.clone(),
        created_at: a.created_at.clone(),
    }
}

} // verus!
