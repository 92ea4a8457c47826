//! The identifier grammar, the canonical digit string, the foreign-key
//! signal, and the end-to-end scenarios over the in-memory store.

use qa_service::handlers::private::HandlerError;
use qa_service::models::Answer;
use qa_service::models::DBError;
use qa_service::models::Question;
use qa_service::persistence::answer_dao::classify_answer_insert_failure;
use qa_service::persistence::answer_dao::is_foreign_key_violation;
use qa_service::persistence::answer_dao::AnswerDao;
use qa_service::persistence::memory::MemStore;
use qa_service::persistence::question_dao::QuestionDao;
use qa_service::uuid_text::parse_uuid;

#[test]
fn parse_accepts_the_hyphenated_form() {
    let digits = parse_uuid("a22abcd2-22ab-2222-a22b-2abc2a2b22cc").unwrap();
    assert_eq!(digits, "a22abcd222ab2222a22b2abc2a2b22cc");
}

#[test]
fn parse_accepts_the_plain_form() {
    let digits = parse_uuid("A22ABCD222AB2222A22B2ABC2A2B22CC").unwrap();
    assert_eq!(digits, "a22abcd222ab2222a22b2abc2a2b22cc");
}

#[test]
fn parse_accepts_the_braced_form() {
    let digits = parse_uuid("{a22abcd2-22ab-2222-a22b-2abc2a2b22cc}").unwrap();
    assert_eq!(digits, "a22abcd222ab2222a22b2abc2a2b22cc");
}

#[test]
fn parse_accepts_the_urn_form() {
    let digits = parse_uuid("URN:uuid:a22abcd2-22ab-2222-a22b-2abc2a2b22cc").unwrap();
    assert_eq!(digits, "a22abcd222ab2222a22b2abc2a2b22cc");
}

#[test]
fn parse_rejects_malformed_strings() {
    assert!(parse_uuid("").is_none());
    assert!(parse_uuid("invalid-uuid").is_none());
    assert!(parse_uuid("a22abcd2-22ab-2222-a22b-2abc2a2b22c").is_none());
    assert!(parse_uuid("a22abcd2-22ab-2222-a22b-2abc2a2b22ccc").is_none());
    assert!(parse_uuid("a22abcd2x22ab-2222-a22b-2abc2a2b22cc").is_none());
    assert!(parse_uuid("g22abcd2-22ab-2222-a22b-2abc2a2b22cc").is_none());
    assert!(parse_uuid("urn:uuig:a22abcd2-22ab-2222-a22b-2abc2a2b22cc").is_none());
    assert!(parse_uuid("(a22abcd2-22ab-2222-a22b-2abc2a2b22cc)").is_none());
}

#[test]
fn minted_identifiers_are_canonical() {
    let mut dao = MemStore::new();
    let first = dao
        .create_question(Question { title: "t".to_owned(), description: "d".to_owned() })
        .unwrap();
    assert_eq!(first.question_uuid, "00000000-0000-0000-0000-000000000000");
    assert_eq!(first.created_at, "0000000000000000");

    let second = dao
        .create_question(Question { title: "t".to_owned(), description: "d".to_owned() })
        .unwrap();
    assert_eq!(second.question_uuid, "00000000-0000-0000-0000-000000000001");
    assert_eq!(second.created_at, "0000000000000001");
}

#[test]
fn foreign_key_violation_code_is_recognised() {
    assert!(is_foreign_key_violation("23503"));
    assert!(!is_foreign_key_violation("23505"));
    assert!(!is_foreign_key_violation("2350"));
    assert!(!is_foreign_key_violation(""));
}

#[test]
fn foreign_key_violation_becomes_invalid_uuid() {
    let err = classify_answer_insert_failure(Some("23503".to_owned()), "fk broken".to_owned());
    match err {
        DBError::InvalidUUID(detail) => assert_eq!(detail, "fk broken"),
        other => panic!("Expected InvalidUUID but got: {:?}", other),
    }
}

#[test]
fn handler_internal_error_message_is_fixed() {
    let err = HandlerError::default_internal_error();
    match err {
        HandlerError::InternalError(message) => {
            assert_eq!(message, "Something went wrong! Please try again.");
        },
        other => panic!("Expected InternalError but got: {:?}", other),
    }
}

#[test]
fn question_round_trip() {
    // create a question, list questions: exactly one entry carries the
    // given title and description, a valid identifier and a timestamp;
    // then create an answer for it and list its answers: exactly one entry
    // carries the given content
    let mut dao = MemStore::new();
    let created = dao
        .create_question(Question { title: "t".to_owned(), description: "d".to_owned() })
        .unwrap();

    let questions = dao.get_questions().unwrap();
    assert_eq!(questions.len(), 1);
    assert_eq!(questions[0].title, "t");
    assert_eq!(questions[0].description, "d");
    assert!(parse_uuid(&questions[0].question_uuid).is_some());
    assert!(!questions[0].created_at.is_empty());

    dao.create_answer(Answer {
        question_uuid: created.question_uuid.clone(),
        content: "c".to_owned(),
    })
    .unwrap();

    let answers = dao.get_answers(created.question_uuid).unwrap();
    assert_eq!(answers.len(), 1);
    assert_eq!(answers[0].content, "c");
}

#[test]
fn two_answers_then_delete_one() {
    // create Q1 and two answers for it: the listing is exactly those two,
    // in some order; deleting the first leaves exactly the second
    let mut dao = MemStore::new();
    let q1 = dao
        .create_question(Question { title: "q1".to_owned(), description: "d1".to_owned() })
        .unwrap();

    let a1 = dao
        .create_answer(Answer { question_uuid: q1.question_uuid.clone(), content: "c".to_owned() })
        .unwrap();
    let a2 = dao
        .create_answer(Answer { question_uuid: q1.question_uuid.clone(), content: "c".to_owned() })
        .unwrap();

    let listed = dao.get_answers(q1.question_uuid.clone()).unwrap();
    assert_eq!(listed.len(), 2);
    assert!(listed.contains(&a1));
    assert!(listed.contains(&a2));

    dao.delete_answer(a1.answer_uuid).unwrap();

    let listed = dao.get_answers(q1.question_uuid).unwrap();
    assert_eq!(listed.len(), 1);
    assert!(listed.contains(&a2));
}

#[test]
fn answer_reference_is_keyed_by_uuid_value() {
    // any accepted textual form of an existing question's identifier
    // resolves the reference, and the stored reference is canonical
    let mut dao = MemStore::new();
    let question = dao
        .create_question(Question { title: "t".to_owned(), description: "d".to_owned() })
        .unwrap();
    assert_eq!(question.question_uuid, "00000000-0000-0000-0000-000000000000");

    let answer = dao
        .create_answer(Answer {
            question_uuid: "{00000000-0000-0000-0000-000000000000}".to_owned(),
            content: "c".to_owned(),
        })
        .unwrap();
    assert_eq!(answer.question_uuid, "00000000-0000-0000-0000-000000000000");

    let listed = dao.get_answers("00000000000000000000000000000000".to_owned()).unwrap();
    assert_eq!(listed.len(), 1);
    assert_eq!(listed[0].content, "c");
}
