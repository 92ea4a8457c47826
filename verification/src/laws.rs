//! Laws of the store model.
//!
//! The DAO contracts describe each operation in isolation; the proof
//! functions here state what those contracts yield across calls: deletes
//! are idempotent, a question with no answers lists none, a created answer
//! appears in the next listing of its question, and deleting an answer
//! removes exactly its rows from every listing.

use crate::models::AnswerDetailV;
use crate::models::QuestionDetailV;
use crate::persistence::memory::answer_kept_pred;
use crate::persistence::memory::answer_of_pred;
use crate::persistence::memory::answers_of;
use crate::persistence::memory::answers_without;
use crate::persistence::memory::question_kept_pred;
use crate::persistence::memory::questions_without;
use crate::uuid_text::same_uuid;
use vstd::prelude::*;

verus! {

/// Filtering distributes over appending one element.
pub proof fn lemma_filter_push<A>(s: Seq<A>, x: A, p: spec_fn(A) -> bool)
    ensures
        p(x) ==> s.push(x).filter(p) == s.filter(p).push(x),
        !p(x) ==> s.push(x).filter(p) == s.filter(p),
{
    reveal(Seq::<_>::filter);
    assert(s.push(x).drop_last() =~= s);
    assert(s.push(x).last() == x);
}

/// A filter that keeps every element changes nothing.
pub proof fn lemma_filter_keeps_all<A>(s: Seq<A>, p: spec_fn(A) -> bool)
    requires
        forall|i: int| 0 <= i < s.len() ==> p(#[trigger] s[i]),
    ensures
        s.filter(p) == s,
    decreases s.len(),
{
    reveal(Seq::<_>::filter);
    if s.len() == 0 {
        assert(s.filter(p) =~= s);
    } else {
        lemma_filter_keeps_all(s.drop_last(), p);
        assert(s.drop_last().push(s.last()) =~= s);
        lemma_filter_push(s.drop_last(), s.last(), p);
    }
}

/// A filter that keeps no element leaves nothing.
pub proof fn lemma_filter_drops_all<A>(s: Seq<A>, p: spec_fn(A) -> bool)
    requires
        forall|i: int| 0 <= i < s.len() ==> !p(#[trigger] s[i]),
    ensures
        s.filter(p) == Seq::<A>::empty(),
    decreases s.len(),
{
    reveal(Seq::<_>::filter);
    if s.len() == 0 {
        assert(s.filter(p) =~= Seq::<A>::empty());
    } else {
        lemma_filter_drops_all(s.drop_last(), p);
        assert(s.drop_last().push(s.last()) =~= s);
        lemma_filter_push(s.drop_last(), s.last(), p);
    }
}

/// Two filters in a row keep exactly what both keep.
pub proof fn lemma_filter_filter<A>(
    s: Seq<A>,
    p: spec_fn(A) -> bool,
    q: spec_fn(A) -> bool,
    pq: spec_fn(A) -> bool,
)
    requires
        forall|x: A| #[trigger] pq(x) == (p(x) && q(x)),
    ensures
        s.filter(p).filter(q) == s.filter(pq),
    decreases s.len(),
{
    reveal(Seq::<_>::filter);
    if s.len() == 0 {
        assert(s.filter(p).filter(q) =~= s.filter(pq));
    } else {
        let dl = s.drop_last();
        let l = s.last();
        lemma_filter_filter(dl, p, q, pq);
        assert(dl.push(l) =~= s);
        lemma_filter_push(dl, l, p);
        if p(l) {
            lemma_filter_push(dl.filter(p), l, q);
        }
        lemma_filter_push(dl, l, pq);
    }
}

/// Law: deleting an identifier that names no stored question leaves the
/// questions unchanged. With the contract of `delete_question`, which
/// succeeds on every well-formed identifier, this is the idempotent
/// delete: deleting an absent question reports success and changes
/// nothing.
pub proof fn lemma_delete_question_absent(m: Seq<QuestionDetailV>, u: Seq<char>)
    requires
        forall|i: int| 0 <= i < m.len() ==> !same_uuid((#[trigger] m[i]).question_uuid, u),
    ensures
        questions_without(m, u) == m,
{
    lemma_filter_keeps_all(m, question_kept_pred(u));
}

/// Law: deleting an identifier that names no stored answer leaves the
/// answers unchanged. With the contract of `delete_answer` this is the
/// idempotent delete for answers.
pub proof fn lemma_delete_answer_absent(m: Seq<AnswerDetailV>, u: Seq<char>)
    requires
        forall|i: int| 0 <= i < m.len() ==> !same_uuid((#[trigger] m[i]).answer_uuid, u),
    ensures
        answers_without(m, u) == m,
{
    lemma_filter_keeps_all(m, answer_kept_pred(u));
}

/// Law: a question that no stored answer references lists no answers.
/// With the contract of `get_answers` this says that reading the answers
/// of a question that has none, or that does not exist at all, succeeds
/// with the empty sequence.
pub proof fn lemma_answers_of_none(m: Seq<AnswerDetailV>, u: Seq<char>)
    requires
        forall|i: int| 0 <= i < m.len() ==> !same_uuid((#[trigger] m[i]).question_uuid, u),
    ensures
        answers_of(m, u) == Seq::<AnswerDetailV>::empty(),
{
    lemma_filter_drops_all(m, answer_of_pred(u));
}

/// Law: after an answer is stored, a listing for its question shows what
/// it showed before with the new answer appended, and a listing for any
/// other question is unchanged. With the contracts of `create_answer` and
/// `get_answers` this is the round trip: create an answer, read the
/// question, and the new answer is there; on a question with no earlier
/// answers it is the only one.
pub proof fn lemma_answers_of_push(m: Seq<AnswerDetailV>, d: AnswerDetailV, u: Seq<char>)
    ensures
        same_uuid(d.question_uuid, u) ==> answers_of(m.push(d), u) == answers_of(m, u).push(d),
        !same_uuid(d.question_uuid, u) ==> answers_of(m.push(d), u) == answers_of(m, u),
{
    lemma_filter_push(m, d, answer_of_pred(u));
}

/// Law: after an answer is deleted, a listing for any question shows
/// exactly the rows it showed before except those named by the deleted
/// identifier. In particular, with pairwise fresh answer identifiers, as
/// `create_answer` mints them, deleting one answer removes exactly that
/// answer from its question's listing.
pub proof fn lemma_listing_after_delete(m: Seq<AnswerDetailV>, a: Seq<char>, u: Seq<char>)
    ensures
        answers_of(answers_without(m, a), u) == answers_of(m, u).filter(answer_kept_pred(a)),
{
    let pq = (|x: AnswerDetailV| answer_kept_pred(a)(x) && answer_of_pred(u)(x));
    assert forall|x: AnswerDetailV| #[trigger] pq(x) == (answer_kept_pred(a)(x) && answer_of_pred(
        u,
    )(x)) by {}
    lemma_filter_filter(m, answer_kept_pred(a), answer_of_pred(u), pq);
    assert forall|x: AnswerDetailV| #[trigger] pq(x) == (answer_of_pred(u)(x) && answer_kept_pred(
        a,
    )(x)) by {}
    lemma_filter_filter(m, answer_of_pred(u), answer_kept_pred(a), pq);
}

} // verus!
