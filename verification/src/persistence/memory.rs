//! An in-memory storage backend.
//!
//! The service layer depends only on the DAO interfaces; this store
//! implements them over plain vectors and mirrors relational semantics:
//! rows are keyed by the UUID their identifier strings name, deletes are
//! idempotent, and creating an answer checks that the referenced question
//! exists, which is the foreign-key rule. Deleting a question does not
//! cascade to its answers. Identifiers and logical timestamps are minted
//! from a monotone counter, so they are never reused.

use crate::models::clone_answer_detail;
use crate::models::clone_question_detail;
use crate::models::invalid_uuid_detail;
use crate::models::invalid_uuid_error;
use crate::models::unknown_question_detail;
use crate::models::unknown_question_error;
use crate::models::Answer;
use crate::models::AnswerDetail;
use crate::models::AnswerDetailV;
use crate::models::DBError;
use crate::models::Question;
use crate::models::QuestionDetail;
use crate::models::QuestionDetailV;
use crate::persistence::answer_dao::AnswerDao;
use crate::persistence::question_dao::QuestionDao;
use crate::uuid_mint::hex16;
use crate::uuid_mint::hyphenate;
use crate::uuid_mint::lemma_add_hyphens_digits;
use crate::uuid_mint::lemma_add_hyphens_wf;
use crate::uuid_mint::lemma_minted_fresh;
use crate::uuid_mint::lemma_minted_new;
use crate::uuid_mint::lemma_minted_wf;
use crate::uuid_mint::lemma_minted_widen;
use crate::uuid_mint::lemma_uuid_of_digits;
use crate::uuid_mint::minted_below;
use crate::uuid_mint::render_counter_digits;
use crate::uuid_mint::render_hex16;
use crate::uuid_mint::render_uuid;
use crate::uuid_mint::uuid_of;
use crate::uuid_text::add_hyphens;
use crate::uuid_text::parse_uuid;
use crate::uuid_text::same_uuid;
use crate::uuid_text::uuid_digits;
use crate::uuid_text::uuid_wf;
use vstd::prelude::*;

verus! {

/// Keeps the questions that the identifier `u` does not name.
pub open spec fn question_kept_pred(u: Seq<char>) -> spec_fn(QuestionDetailV) -> bool {
    |q: QuestionDetailV| !same_uuid(q.question_uuid, u)
}

/// The questions of `m` that remain when the rows named by `u` are deleted.
pub open spec fn questions_without(m: Seq<QuestionDetailV>, u: Seq<char>) -> Seq<QuestionDetailV> {
    m.filter(question_kept_pred(u))
}

/// Whether `m` holds a question named by `u`.
pub open spec fn has_question(m: Seq<QuestionDetailV>, u: Seq<char>) -> bool {
    exists|j: int| 0 <= j < m.len() && same_uuid((#[trigger] m[j]).question_uuid, u)
}

/// Keeps the answers that belong to the question named by `u`.
pub open spec fn answer_of_pred(u: Seq<char>) -> spec_fn(AnswerDetailV) -> bool {
    |a: AnswerDetailV| same_uuid(a.question_uuid, u)
}

/// Keeps the answers that the identifier `u` does not name.
pub open spec fn answer_kept_pred(u: Seq<char>) -> spec_fn(AnswerDetailV) -> bool {
    |a: AnswerDetailV| !same_uuid(a.answer_uuid, u)
}

/// The answers of `m` that belong to the question named by `u`, in storage
/// order.
pub open spec fn answers_of(m: Seq<AnswerDetailV>, u: Seq<char>) -> Seq<AnswerDetailV> {
    m.filter(answer_of_pred(u))
}

/// The answers of `m` that remain when the rows named by `u` are deleted.
pub open spec fn answers_without(m: Seq<AnswerDetailV>, u: Seq<char>) -> Seq<AnswerDetailV> {
    m.filter(answer_kept_pred(u))
}

/// An in-memory question-and-answer store: the stored rows and the mint
/// counter for fresh identifiers.
pub struct MemStore {
    next_id: u64,
    questions: Vec<QuestionDetail>,
    answers: Vec<AnswerDetail>,
}

impl MemStore {
    /// The stored questions, as mathematical values, in storage order.
    pub closed spec fn questions_model(&self) -> Seq<QuestionDetailV> {
        self.questions.deep_view()
    }

    /// The stored answers, as mathematical values, in storage order.
    pub closed spec fn answers_model(&self) -> Seq<AnswerDetailV> {
        self.answers.deep_view()
    }

    /// The value the mint counter holds.
    pub closed spec fn counter(&self) -> u64 {
        self.next_id
    }

    /// Every stored identifier was minted from a counter value below the
    /// current one, and the question reference of every stored answer is a
    /// well-formed identifier.
    #[verifier::type_invariant]
    spec fn inv(&self) -> bool {
        &&& forall|i: int|
            0 <= i < self.questions.deep_view().len() ==> minted_below(
                (#[trigger] self.questions.deep_view()[i]).question_uuid,
                self.next_id,
            )
        &&& forall|i: int|
            0 <= i < self.answers.deep_view().len() ==> minted_below(
                (#[trigger] self.answers.deep_view()[i]).answer_uuid,
                self.next_id,
            )
        &&& forall|i: int|
            0 <= i < self.answers.deep_view().len() ==> uuid_wf(
                (#[trigger] self.answers.deep_view()[i]).question_uuid,
            )
    }

    /// An empty store.
    pub fn new() -> (s: Self)
        ensures
            s.questions_model() == Seq::<QuestionDetailV>::empty(),
            s.answers_model() == Seq::<AnswerDetailV>::empty(),
            s.counter() == 0,
    {
        let s = MemStore { next_id: 0, questions: Vec::new(), answers: Vec::new() };
        proof {
            assert(s.questions.deep_view() =~= Seq::<QuestionDetailV>::empty());
            assert(s.answers.deep_view() =~= Seq::<AnswerDetailV>::empty());
        }
        s
    }
}

impl QuestionDao for MemStore {
    fn create_question(&mut self, question: Question) -> (r: Result<QuestionDetail, DBError>)
        ensures
            old(self).counter() < u64::MAX ==> r is Ok,
            final(self).answers_model() == old(self).answers_model(),
            match r {
                Ok(d) => {
                    &&& final(self).questions_model() == old(self).questions_model().push(d@)
                    &&& final(self).counter() == old(self).counter() + 1
                    &&& d@.title == question@.title
                    &&& d@.description == question@.description
                    &&& d@.question_uuid == uuid_of(old(self).counter())
                    &&& d@.created_at == hex16(old(self).counter())
                    &&& uuid_wf(d@.question_uuid)
                    &&& forall|i: int|
                        0 <= i < old(self).questions_model().len() ==> !same_uuid(
                            (#[trigger] old(self).questions_model()[i]).question_uuid,
                            d@.question_uuid,
                        )
                },
                Err(e) => {
                    &&& e matches DBError::Other(_)
                    &&& final(self).questions_model() == old(self).questions_model()
                    &&& final(self).counter() == old(self).counter()
                },
            },
    {
        proof {
            use_type_invariant(&*self);
        }
        if self.next_id == u64::MAX {
            return Err(DBError::Other("identifier space exhausted".to_owned()));
        }
        let id = self.next_id;
        let digits = render_counter_digits(id);
        let row_uuid = hyphenate(digits.as_str());
        let stamp = render_hex16(id);
        proof {
            lemma_uuid_of_digits(id);
        }
        let d = QuestionDetail {
            question_uuid: row_uuid,
            title: question.title,
            description: question.description,
            created_at: stamp,
        };
        let row = clone_question_detail(&d);
        let mut qs: Vec<QuestionDetail> = Vec::new();
        core::mem::swap(&mut qs, &mut self.questions);
        qs.push(row);
        proof {
            lemma_minted_new(id);
            assert forall|i: int| 0 <= i < qs.deep_view().len() implies minted_below(
                (#[trigger] qs.deep_view()[i]).question_uuid,
                (id + 1) as u64,
            ) by {
                if i < qs.deep_view().len() - 1 {
                    assert(qs.deep_view()[i] == old(self).questions.deep_view()[i]);
                    lemma_minted_widen(qs.deep_view()[i].question_uuid, id, (id + 1) as u64);
                } else {
                    assert(qs.deep_view()[i] == d@);
                }
            }
            assert forall|i: int| 0 <= i < self.answers.deep_view().len() implies minted_below(
                (#[trigger] self.answers.deep_view()[i]).answer_uuid,
                (id + 1) as u64,
            ) by {
                lemma_minted_widen(self.answers.deep_view()[i].answer_uuid, id, (id + 1) as u64);
            }
        }
        self.next_id = id + 1;
        self.questions = qs;
        proof {
            assert(self.questions_model() =~= old(self).questions_model().push(d@));
            assert forall|i: int| 0 <= i < old(self).questions_model().len() implies !same_uuid(
                (#[trigger] old(self).questions_model()[i]).question_uuid,
                d@.question_uuid,
            ) by {
                lemma_minted_fresh(old(self).questions_model()[i].question_uuid, id);
            }
        }
        Ok(d)
    }

    fn delete_question(&mut self, question_uuid: String) -> (r: Result<(), DBError>)
        ensures
            !uuid_wf(question_uuid@) ==> (r matches Err(DBError::InvalidUUID(m)) && m@
                == invalid_uuid_detail()),
            uuid_wf(question_uuid@) ==> r is Ok,
            final(self).counter() == old(self).counter(),
            final(self).answers_model() == old(self).answers_model(),
            match r {
                Ok(_) => final(self).questions_model() == questions_without(
                    old(self).questions_model(),
                    question_uuid@,
                ),
                Err(_) => final(self).questions_model() == old(self).questions_model(),
            },
    {
        proof {
            use_type_invariant(&*self);
        }
        let parsed = parse_uuid(question_uuid.as_str());
        match parsed {
            Option::None => Err(invalid_uuid_error()),
            Option::Some(dq) => {
                let ghost m = self.questions.deep_view();
                let ghost u = question_uuid@;
                let ghost bound = self.next_id;
                proof {
                    assert forall|j: int| 0 <= j < m.len() implies minted_below(
                        (#[trigger] m[j]).question_uuid,
                        bound,
                    ) by {
                        assert(m[j] == self.questions.deep_view()[j]);
                    }
                }
                let mut kept: Vec<QuestionDetail> = Vec::new();
                let mut i: usize = 0;
                while i < self.questions.len()
                    invariant
                        i <= self.questions.len(),
                        m == self.questions.deep_view(),
                        u == question_uuid@,
                        bound == self.next_id,
                        dq@ == uuid_digits(u),
                        forall|j: int|
                            0 <= j < m.len() ==> minted_below(
                                (#[trigger] m[j]).question_uuid,
                                bound,
                            ),
                        kept.deep_view() == questions_without(m.take(i as int), u),
                        forall|j: int|
                            0 <= j < kept.deep_view().len() ==> minted_below(
                                (#[trigger] kept.deep_view()[j]).question_uuid,
                                bound,
                            ),
                    decreases self.questions.len() - i,
                {
                    let q = &self.questions[i];
                    proof {
                        assert(q@ == m[i as int]);
                        lemma_minted_wf(m[i as int].question_uuid, bound);
                    }
                    let sres = parse_uuid(q.question_uuid.as_str());
                    let ghost kept_pre = kept.deep_view();
                    if let Option::Some(sd) = sres {
                        if sd == dq {
                            // the row the identifier names: dropped
                        } else {
                            let row = clone_question_detail(q);
                            kept.push(row);
                        }
                    } else {
                        proof {
                            assert(false);
                        }
                    }
                    proof {
                        reveal(Seq::<_>::filter);
                        assert(m.take(i as int + 1).drop_last() =~= m.take(i as int));
                        assert(m.take(i as int + 1).last() == m[i as int]);
                        if same_uuid(m[i as int].question_uuid, u) {
                            assert(kept.deep_view() == kept_pre);
                            assert(questions_without(m.take(i as int + 1), u) == kept_pre);
                        } else {
                            assert(kept.deep_view() =~= kept_pre.push(m[i as int]));
                            assert(questions_without(m.take(i as int + 1), u) == kept_pre.push(
                                m[i as int],
                            ));
                        }
                    }
                    i += 1;
                }
                proof {
                    assert(m.take(i as int) =~= m);
                }
                let mut dropped: Vec<QuestionDetail> = Vec::new();
                core::mem::swap(&mut dropped, &mut self.questions);
                self.questions = kept;
                Ok(())
            },
        }
    }

    fn get_questions(&self) -> (r: Result<Vec<QuestionDetail>, DBError>)
        ensures
            r matches Ok(v) && v.deep_view() == self.questions_model(),
    {
        let mut out: Vec<QuestionDetail> = Vec::new();
        let mut i: usize = 0;
        while i < self.questions.len()
            invariant
                i <= self.questions.len(),
                out@.len() == i,
                forall|j: int|
                    0 <= j < i ==> (#[trigger] out@[j])@ == self.questions.deep_view()[j],
            decreases self.questions.len() - i,
        {
            let row = clone_question_detail(&self.questions[i]);
            proof {
                assert(row@ == self.questions.deep_view()[i as int]);
            }
            out.push(row);
            i += 1;
        }
        proof {
            assert forall|j: int| 0 <= j < out@.len() implies out.deep_view()[j]
                == self.questions.deep_view()[j] by {
                assert(out.deep_view()[j] == out@[j].deep_view());
            }
            assert(out.deep_view() =~= self.questions.deep_view());
        }
        Ok(out)
    }
}

impl AnswerDao for MemStore {
    fn create_answer(&mut self, answer: Answer) -> (r: Result<AnswerDetail, DBError>)
        ensures
            final(self).questions_model() == old(self).questions_model(),
            !uuid_wf(answer.question_uuid@) ==> (r matches Err(DBError::InvalidUUID(m)) && m@
                == invalid_uuid_detail()),
            uuid_wf(answer.question_uuid@) && !has_question(
                old(self).questions_model(),
                answer.question_uuid@,
            ) ==> (r matches Err(DBError::InvalidUUID(m)) && m@ == unknown_question_detail()),
            uuid_wf(answer.question_uuid@) && has_question(
                old(self).questions_model(),
                answer.question_uuid@,
            ) && old(self).counter() < u64::MAX ==> r is Ok,
            match r {
                Ok(d) => {
                    &&& final(self).answers_model() == old(self).answers_model().push(d@)
                    &&& final(self).counter() == old(self).counter() + 1
                    &&& d@.content == answer@.content
                    &&& d@.question_uuid == add_hyphens(uuid_digits(answer.question_uuid@))
                    &&& same_uuid(d@.question_uuid, answer.question_uuid@)
                    &&& d@.answer_uuid == uuid_of(old(self).counter())
                    &&& d@.created_at == hex16(old(self).counter())
                    &&& uuid_wf(d@.answer_uuid)
                    &&& uuid_wf(answer.question_uuid@)
                    &&& has_question(old(self).questions_model(), answer.question_uuid@)
                    &&& forall|i: int|
                        0 <= i < old(self).answers_model().len() ==> !same_uuid(
                            (#[trigger] old(self).answers_model()[i]).answer_uuid,
                            d@.answer_uuid,
                        )
                },
                Err(e) => {
                    &&& final(self).answers_model() == old(self).answers_model()
                    &&& final(self).counter() == old(self).counter()
                    &&& (e matches DBError::Other(_) ==> old(self).counter() == u64::MAX)
                },
            },
    {
        proof {
            use_type_invariant(&*self);
        }
        let parsed = parse_uuid(answer.question_uuid.as_str());
        let dq = match parsed {
            Option::None => {
                return Err(invalid_uuid_error());
            },
            Option::Some(dq) => dq,
        };
        let ghost mq = self.questions.deep_view();
        let ghost u = answer.question_uuid@;
        let ghost bound = self.next_id;
        proof {
            assert forall|j: int| 0 <= j < mq.len() implies minted_below(
                (#[trigger] mq[j]).question_uuid,
                bound,
            ) by {
                assert(mq[j] == self.questions.deep_view()[j]);
            }
        }
        let mut found = false;
        let mut i: usize = 0;
        while i < self.questions.len()
            invariant
                i <= self.questions.len(),
                mq == self.questions.deep_view(),
                u == answer.question_uuid@,
                bound == self.next_id,
                dq@ == uuid_digits(u),
                forall|j: int|
                    0 <= j < mq.len() ==> minted_below((#[trigger] mq[j]).question_uuid, bound),
                found ==> has_question(mq, u),
                !found ==> forall|j: int|
                    0 <= j < i ==> !same_uuid((#[trigger] mq[j]).question_uuid, u),
            decreases self.questions.len() - i,
        {
            let q = &self.questions[i];
            proof {
                assert(q@ == mq[i as int]);
                lemma_minted_wf(mq[i as int].question_uuid, bound);
            }
            let sres = parse_uuid(q.question_uuid.as_str());
            if let Option::Some(sd) = sres {
                if sd == dq {
                    found = true;
                    proof {
                        assert(same_uuid(mq[i as int].question_uuid, u));
                    }
                }
            } else {
                proof {
                    assert(false);
                }
            }
            i += 1;
        }
        if !found {
            return Err(unknown_question_error());
        }
        if self.next_id == u64::MAX {
            return Err(DBError::Other("identifier space exhausted".to_owned()));
        }
        let id = self.next_id;
        let row_uuid = render_uuid(id);
        let question_ref = hyphenate(dq.as_str());
        let stamp = render_hex16(id);
        proof {
            lemma_uuid_of_digits(id);
            lemma_add_hyphens_wf(dq@);
            lemma_add_hyphens_digits(dq@);
        }
        let d = AnswerDetail {
            answer_uuid: row_uuid,
            question_uuid: question_ref,
            content: answer.content,
            created_at: stamp,
        };
        let row = clone_answer_detail(&d);
        let mut rows: Vec<AnswerDetail> = Vec::new();
        core::mem::swap(&mut rows, &mut self.answers);
        rows.push(row);
        proof {
            lemma_minted_new(id);
            assert forall|j: int| 0 <= j < rows.deep_view().len() implies minted_below(
                (#[trigger] rows.deep_view()[j]).answer_uuid,
                (id + 1) as u64,
            ) by {
                if j < rows.deep_view().len() - 1 {
                    assert(rows.deep_view()[j] == old(self).answers.deep_view()[j]);
                    lemma_minted_widen(rows.deep_view()[j].answer_uuid, id, (id + 1) as u64);
                } else {
                    assert(rows.deep_view()[j] == d@);
                }
            }
            assert forall|j: int| 0 <= j < rows.deep_view().len() implies uuid_wf(
                (#[trigger] rows.deep_view()[j]).question_uuid,
            ) by {
                if j < rows.deep_view().len() - 1 {
                    assert(rows.deep_view()[j] == old(self).answers.deep_view()[j]);
                } else {
                    assert(rows.deep_view()[j] == d@);
                }
            }
            assert forall|j: int| 0 <= j < self.questions.deep_view().len() implies minted_below(
                (#[trigger] self.questions.deep_view()[j]).question_uuid,
                (id + 1) as u64,
            ) by {
                lemma_minted_widen(
                    self.questions.deep_view()[j].question_uuid,
                    id,
                    (id + 1) as u64,
                );
            }
        }
        self.next_id = id + 1;
        self.answers = rows;
        proof {
            assert(self.answers_model() =~= old(self).answers_model().push(d@));
            assert forall|j: int| 0 <= j < old(self).answers_model().len() implies !same_uuid(
                (#[trigger] old(self).answers_model()[j]).answer_uuid,
                d@.answer_uuid,
            ) by {
                lemma_minted_fresh(old(self).answers_model()[j].answer_uuid, id);
            }
        }
        Ok(d)
    }

    fn delete_answer(&mut self, answer_uuid: String) -> (r: Result<(), DBError>)
        ensures
            !uuid_wf(answer_uuid@) ==> (r matches Err(DBError::InvalidUUID(m)) && m@
                == invalid_uuid_detail()),
            uuid_wf(answer_uuid@) ==> r is Ok,
            final(self).counter() == old(self).counter(),
            final(self).questions_model() == old(self).questions_model(),
            match r {
                Ok(_) => final(self).answers_model() == answers_without(
                    old(self).answers_model(),
                    answer_uuid@,
                ),
                Err(_) => final(self).answers_model() == old(self).answers_model(),
            },
    {
        proof {
            use_type_invariant(&*self);
        }
        let parsed = parse_uuid(answer_uuid.as_str());
        match parsed {
            Option::None => Err(invalid_uuid_error()),
            Option::Some(dq) => {
                let ghost m = self.answers.deep_view();
                let ghost u = answer_uuid@;
                let ghost bound = self.next_id;
                proof {
                    assert forall|j: int| 0 <= j < m.len() implies minted_below(
                        (#[trigger] m[j]).answer_uuid,
                        bound,
                    ) && uuid_wf((#[trigger] m[j]).question_uuid) by {
                        assert(m[j] == self.answers.deep_view()[j]);
                    }
                }
                let mut kept: Vec<AnswerDetail> = Vec::new();
                let mut i: usize = 0;
                while i < self.answers.len()
                    invariant
                        i <= self.answers.len(),
                        m == self.answers.deep_view(),
                        u == answer_uuid@,
                        bound == self.next_id,
                        dq@ == uuid_digits(u),
                        forall|j: int|
                            0 <= j < m.len() ==> minted_below((#[trigger] m[j]).answer_uuid, bound),
                        forall|j: int|
                            0 <= j < m.len() ==> uuid_wf((#[trigger] m[j]).question_uuid),
                        kept.deep_view() == answers_without(m.take(i as int), u),
                        forall|j: int|
                            0 <= j < kept.deep_view().len() ==> minted_below(
                                (#[trigger] kept.deep_view()[j]).answer_uuid,
                                bound,
                            ),
                        forall|j: int|
                            0 <= j < kept.deep_view().len() ==> uuid_wf(
                                (#[trigger] kept.deep_view()[j]).question_uuid,
                            ),
                    decreases self.answers.len() - i,
                {
                    let a = &self.answers[i];
                    proof {
                        assert(a@ == m[i as int]);
                        lemma_minted_wf(m[i as int].answer_uuid, bound);
                    }
                    let sres = parse_uuid(a.answer_uuid.as_str());
                    let ghost kept_pre = kept.deep_view();
                    if let Option::Some(sd) = sres {
                        if sd == dq {
                            // the row the identifier names: dropped
                        } else {
                            let row = clone_answer_detail(a);
                            kept.push(row);
                        }
                    } else {
                        proof {
                            assert(false);
                        }
                    }
                    proof {
                        reveal(Seq::<_>::filter);
                        assert(m.take(i as int + 1).drop_last() =~= m.take(i as int));
                        assert(m.take(i as int + 1).last() == m[i as int]);
                        if same_uuid(m[i as int].answer_uuid, u) {
                            assert(kept.deep_view() == kept_pre);
                            assert(answers_without(m.take(i as int + 1), u) == kept_pre);
                        } else {
                            assert(kept.deep_view() =~= kept_pre.push(m[i as int]));
                            assert(answers_without(m.take(i as int + 1), u) == kept_pre.push(
                                m[i as int],
                            ));
                        }
                    }
                    i += 1;
                }
                proof {
                    assert(m.take(i as int) =~= m);
                }
                let mut dropped: Vec<AnswerDetail> = Vec::new();
                core::mem::swap(&mut dropped, &mut self.answers);
                self.answers = kept;
                Ok(())
            },
        }
    }

    fn get_answers(&self, question_uuid: String) -> (r: Result<Vec<AnswerDetail>, DBError>)
        ensures
            (r is Ok) == uuid_wf(question_uuid@),
            match r {
                Ok(v) => v.deep_view() == answers_of(self.answers_model(), question_uuid@),
                Err(e) => e matches DBError::InvalidUUID(m) && m@ == invalid_uuid_detail(),
            },
    {
        proof {
            use_type_invariant(&*self);
        }
        let parsed = parse_uuid(question_uuid.as_str());
        match parsed {
            Option::None => Err(invalid_uuid_error()),
            Option::Some(dq) => {
                let ghost m = self.answers.deep_view();
                let ghost u = question_uuid@;
                proof {
                    assert forall|j: int| 0 <= j < m.len() implies uuid_wf(
                        (#[trigger] m[j]).question_uuid,
                    ) by {
                        assert(m[j] == self.answers.deep_view()[j]);
                    }
                }
                let mut out: Vec<AnswerDetail> = Vec::new();
                let mut i: usize = 0;
                while i < self.answers.len()
                    invariant
                        i <= self.answers.len(),
                        m == self.answers.deep_view(),
                        u == question_uuid@,
                        dq@ == uuid_digits(u),
                        forall|j: int|
                            0 <= j < m.len() ==> uuid_wf((#[trigger] m[j]).question_uuid),
                        out.deep_view() == answers_of(m.take(i as int), u),
                    decreases self.answers.len() - i,
                {
                    let a = &self.answers[i];
                    proof {
                        assert(a@ == m[i as int]);
                    }
                    let sres = parse_uuid(a.question_uuid.as_str());
                    let ghost out_pre = out.deep_view();
                    if let Option::Some(sd) = sres {
                        if sd == dq {
                            let row = clone_answer_detail(a);
                            out.push(row);
                        }
                    } else {
                        proof {
                            assert(false);
                        }
                    }
                    proof {
                        reveal(Seq::<_>::filter);
                        assert(m.take(i as int + 1).drop_last() =~= m.take(i as int));
                        assert(m.take(i as int + 1).last() == m[i as int]);
                        if same_uuid(m[i as int].question_uuid, u) {
                            assert(out.deep_view() =~= out_pre.push(m[i as int]));
                            assert(answers_of(m.take(i as int + 1), u) == out_pre.push(
                                m[i as int],
                            ));
                        } else {
                            assert(out.deep_view() == out_pre);
                            assert(answers_of(m.take(i as int + 1), u) == out_pre);
                        }
                    }
                    i += 1;
                }
                proof {
                    assert(m.take(i as int) =~= m);
                }
                Ok(out)
            },
        }
    }
}

} // verus!
