//! The question storage interface.
//!
//! A question store owns all storage interaction for questions and
//! classifies every storage failure exactly once: `InvalidUUID` for a
//! malformed identifier, `Other` for everything else. The service layer
//! depends only on this interface, never on a concrete store.

use crate::models::DBError;
use crate::models::Question;
use crate::models::QuestionDetail;
use crate::uuid_text::uuid_wf;
use vstd::prelude::*;

verus! {

pub trait QuestionDao {
    /// Inserts a question; storage assigns the identifier and the creation
    /// timestamp. Identifier parsing plays no part here, so any failure is
    /// reported as `Other`.
    fn create_question(&mut self, question: Question) -> (r: Result<QuestionDetail, DBError>)
        ensures
            r matches Err(e) ==> e matches DBError::Other(_),
    ;

    /// Deletes the question named by `question_uuid`, idempotently: deleting
    /// an identifier that matches no row succeeds. A malformed identifier is
    /// rejected as `InvalidUUID` before any storage work, and only a
    /// malformed identifier is rejected so.
    fn delete_question(&mut self, question_uuid: String) -> (r: Result<(), DBError>)
        ensures
            !uuid_wf(question_uuid@) ==> r matches Err(DBError::InvalidUUID(_)),
            r matches Err(DBError::InvalidUUID(_)) ==> !uuid_wf(question_uuid@),
    ;

    /// Returns all stored questions; the order is storage-defined. Any
    /// failure is reported as `Other`.
    fn get_questions(&self) -> (r: Result<Vec<QuestionDetail>, DBError>)
        ensures
            r matches Err(e) ==> e matches DBError::Other(_),
    ;
}

} // verus!
