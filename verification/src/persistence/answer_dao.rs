//! The answer storage interface and the foreign-key reclassification rule.
//!
//! An answer store parses the referenced question identifier before any
//! storage work, and it reclassifies a foreign-key violation reported by
//! the store as `InvalidUUID` rather than `Other`: a dangling reference is
//! the caller's bad input, not a storage breakdown. The reclassification
//! keys on the store's specific constraint-violation signal, never on a
//! generic failure.

use crate::models::Answer;
use crate::models::AnswerDetail;
use crate::models::DBError;
use crate::uuid_text::uuid_wf;
use vstd::prelude::*;
use vstd::string::StrSliceExecFns;

verus! {

pub trait AnswerDao {
    /// Inserts an answer referencing `answer.question_uuid`. A malformed
    /// identifier is rejected as `InvalidUUID` before any storage work; a
    /// reference to a question that does not exist is also reported as
    /// `InvalidUUID`, by the foreign-key rule.
    fn create_answer(&mut self, answer: Answer) -> (r: Result<AnswerDetail, DBError>)
        ensures
            !uuid_wf(answer.question_uuid@) ==> r matches Err(DBError::InvalidUUID(_)),
    ;

    /// Deletes the answer named by `answer_uuid`, idempotently: deleting an
    /// identifier that matches no row succeeds. A malformed identifier is
    /// rejected as `InvalidUUID` before any storage work, and only a
    /// malformed identifier is rejected so.
    fn delete_answer(&mut self, answer_uuid: String) -> (r: Result<(), DBError>)
        ensures
            !uuid_wf(answer_uuid@) ==> r matches Err(DBError::InvalidUUID(_)),
            r matches Err(DBError::InvalidUUID(_)) ==> !uuid_wf(answer_uuid@),
    ;

    /// Returns all answers of the question named by `question_uuid`; an
    /// empty result is success, whether the question has no answers or does
    /// not exist at all. A malformed identifier is rejected as
    /// `InvalidUUID`, and only a malformed identifier is rejected so.
    fn get_answers(&self, question_uuid: String) -> (r: Result<Vec<AnswerDetail>, DBError>)
        ensures
            !uuid_wf(question_uuid@) ==> r matches Err(DBError::InvalidUUID(_)),
            r matches Err(DBError::InvalidUUID(_)) ==> !uuid_wf(question_uuid@),
    ;
}

/// The SQLSTATE code a relational store reports for a violated foreign-key
/// constraint.
pub open spec fn foreign_key_violation_code() -> Seq<char> {
    seq!['2', '3', '5', '0', '3']
}

/// Tells whether a storage error code is the foreign-key violation code.
pub fn is_foreign_key_violation(code: &str) -> (b: bool)
    ensures
        b == (code@ == foreign_key_violation_code()),
{
    let n = code.unicode_len();
    if n != 5 {
        return false;
    }
    let b = code.get_char(0) == '2' && code.get_char(1) == '3' && code.get_char(2) == '5'
        && code.get_char(3) == '0' && code.get_char(4) == '3';
    proof {
        if b {
            assert(code@ =~= foreign_key_violation_code());
        }
        if code@ == foreign_key_violation_code() {
            assert(code@[0] == '2' && code@[1] == '3' && code@[2] == '5' && code@[3] == '0'
                && code@[4] == '3');
        }
    }
    b
}

/// Classifies a failed answer insert from the store's error signal: the
/// foreign-key violation code means the referenced question does not exist,
/// which is the caller's bad reference; any other signal is a generic
/// storage failure.
pub fn classify_answer_insert_failure(code: Option<String>, cause: String) -> (r: DBError)
    ensures
        match code {
            Option::Some(c) => if c@ == foreign_key_violation_code() {
                r matches DBError::InvalidUUID(m) && m@ == cause@
            } else {
                r matches DBError::Other(m) && m@ == cause@
            },
            Option::None => r matches DBError::Other(m) && m@ == cause@,
        },
{
    match code {
        Option::Some(c) => if is_foreign_key_violation(c.as_str()) {
            DBError::InvalidUUID(cause)
        } else {
            DBError::Other(cause)
        },
        Option::None => DBError::Other(cause),
    }
}

} // verus!
