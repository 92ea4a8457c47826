//! The application service layer.
//!
//! Each operation calls the matching DAO method and reclassifies its error
//! exactly once for the handler boundary: a storage `InvalidUUID` becomes
//! `BadRequest` carrying the same detail, every other storage failure
//! becomes `InternalError` with one fixed, non-leaking message. The two
//! read-or-create question operations never see identifier errors, so they
//! map every failure to `InternalError`, as the error taxonomy asks.

use crate::models::Answer;
use crate::models::AnswerDetail;
use crate::models::DBError;
use crate::models::Question;
use crate::models::QuestionDetail;
use crate::persistence::answer_dao::AnswerDao;
use crate::persistence::question_dao::QuestionDao;
use crate::uuid_text::uuid_wf;
use vstd::prelude::*;

verus! {

/// The fixed message of every internal failure: it leaks nothing of the
/// cause.
pub open spec fn internal_error_message() -> Seq<char> {
    "Something went wrong! Please try again."@
}

/// Handler-facing error taxonomy: the caller's input was invalid, or an
/// unexpected failure happened and its cause stays private.
#[derive(Debug, PartialEq, Eq)]
pub enum HandlerError {
    BadRequest(String),
    InternalError(String),
}

impl HandlerError {
    /// The internal failure with the fixed, non-leaking message.
    pub fn default_internal_error() -> (e: Self)
        ensures
            e matches HandlerError::InternalError(m) && m@ == internal_error_message(),
    {
        HandlerError::InternalError("Something went wrong! Please try again.".to_owned())
    }
}

/// Reclassifies a storage error for the handler boundary: `InvalidUUID`
/// becomes `BadRequest` with the same detail, `Other` becomes
/// `InternalError` with the fixed message.
pub fn handler_error_of(err: DBError) -> (e: HandlerError)
    ensures
        match err {
            DBError::InvalidUUID(m) => e matches HandlerError::BadRequest(b) && b@ == m@,
            DBError::Other(_) => e matches HandlerError::InternalError(b) && b@
                == internal_error_message(),
        },
{
    match err {
        DBError::InvalidUUID(s) => HandlerError::BadRequest(s),
        DBError::Other(_) => HandlerError::default_internal_error(),
    }
}

/// Creates a question through the DAO; any storage failure surfaces as the
/// fixed internal error.
pub fn create_question<D: QuestionDao>(question: Question, questions_dao: &mut D) -> (r: Result<
    QuestionDetail,
    HandlerError,
>)
    ensures
        r matches Err(e) ==> (e matches HandlerError::InternalError(m) && m@
            == internal_error_message()),
{
    let result = questions_dao.create_question(question);
    match result {
        Ok(question) => Ok(question),
        Err(_) => Err(HandlerError::default_internal_error()),
    }
}

/// Lists all questions through the DAO; any storage failure surfaces as
/// the fixed internal error.
pub fn get_questions<D: QuestionDao>(question_dao: &D) -> (r: Result<
    Vec<QuestionDetail>,
    HandlerError,
>)
    ensures
        r matches Err(e) ==> (e matches HandlerError::InternalError(m) && m@
            == internal_error_message()),
{
    let result = question_dao.get_questions();
    match result {
        Ok(questions) => Ok(questions),
        Err(_) => Err(HandlerError::default_internal_error()),
    }
}

/// Deletes a question through the DAO. A malformed identifier surfaces as
/// `BadRequest`, and `BadRequest` arises exactly from a malformed
/// identifier; every other failure surfaces as the fixed internal error.
pub fn delete_question<D: QuestionDao>(question_uuid: String, question_dao: &mut D) -> (r: Result<
    (),
    HandlerError,
>)
    ensures
        (r matches Err(HandlerError::BadRequest(_))) == !uuid_wf(question_uuid@),
        r matches Err(HandlerError::InternalError(m)) ==> m@ == internal_error_message(),
{
    let result = question_dao.delete_question(question_uuid);
    match result {
        Ok(_) => Ok(()),
        Err(err) => Err(handler_error_of(err)),
    }
}

/// Creates an answer through the DAO. A malformed or dangling question
/// reference surfaces as `BadRequest`; every other failure surfaces as the
/// fixed internal error.
pub fn create_answer<D: AnswerDao>(answer: Answer, answer_dao: &mut D) -> (r: Result<
    AnswerDetail,
    HandlerError,
>)
    ensures
        !uuid_wf(answer.question_uuid@) ==> r matches Err(HandlerError::BadRequest(_)),
        r matches Err(HandlerError::InternalError(m)) ==> m@ == internal_error_message(),
{
    let result = answer_dao.create_answer(answer);
    match result {
        Ok(answer) => Ok(answer),
        Err(err) => Err(handler_error_of(err)),
    }
}

/// Lists the answers of a question through the DAO. A malformed identifier
/// surfaces as `BadRequest`, and `BadRequest` arises exactly from a
/// malformed identifier; every other failure surfaces as the fixed
/// internal error.
pub fn get_answers<D: AnswerDao>(question_uuid: String, answer_dao: &D) -> (r: Result<
    Vec<AnswerDetail>,
    HandlerError,
>)
    ensures
        (r matches Err(HandlerError::BadRequest(_))) == !uuid_wf(question_uuid@),
        r matches Err(HandlerError::InternalError(m)) ==> m@ == internal_error_message(),
{
    let result = answer_dao.get_answers(question_uuid);
    match result {
        Ok(answers) => Ok(answers),
        Err(err) => Err(handler_error_of(err)),
    }
}

/// Deletes an answer through the DAO. A malformed identifier surfaces as
/// `BadRequest`, and `BadRequest` arises exactly from a malformed
/// identifier; every other failure surfaces as the fixed internal error.
pub fn delete_answer<D: AnswerDao>(answer_uuid: String, answer_dao: &mut D) -> (r: Result<
    (),
    HandlerError,
>)
    ensures
        (r matches Err(HandlerError::BadRequest(_))) == !uuid_wf(answer_uuid@),
        r matches Err(HandlerError::InternalError(m)) ==> m@ == internal_error_message(),
{
    let result = answer_dao.delete_answer(answer_uuid);
    match result {
        Ok(_) => Ok(()),
        Err(err) => Err(handler_error_of(err)),
    }
}

} // verus!
