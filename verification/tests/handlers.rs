//! Service-layer behaviour over a configurable test double: each DAO
//! operation holds one canned response, consumed exactly once.

use qa_service::handlers::private::create_answer;
use qa_service::handlers::private::create_question;
use qa_service::handlers::private::delete_answer;
use qa_service::handlers::private::delete_question;
use qa_service::handlers::private::get_answers;
use qa_service::handlers::private::get_questions;
use qa_service::handlers::private::HandlerError;
use qa_service::models::Answer;
use qa_service::models::AnswerDetail;
use qa_service::models::DBError;
use qa_service::models::Question;
use qa_service::models::QuestionDetail;
use qa_service::persistence::answer_dao::AnswerDao;
use qa_service::persistence::question_dao::QuestionDao;
use std::cell::RefCell;

struct QuestionDaoMock {
    create_question_response: Option<Result<QuestionDetail, DBError>>,
    delete_question_response: Option<Result<(), DBError>>,
    get_questions_response: RefCell<Option<Result<Vec<QuestionDetail>, DBError>>>,
}

impl QuestionDaoMock {
    fn new() -> Self {
        Self {
            create_question_response: None,
            delete_question_response: None,
            get_questions_response: RefCell::new(None),
        }
    }

    fn mock_create_question_response(&mut self, response: Result<QuestionDetail, DBError>) {
        self.create_question_response = Some(response);
    }

    fn mock_delete_question_response(&mut self, response: Result<(), DBError>) {
        self.delete_question_response = Some(response);
    }

    fn mock_get_questions_response(&mut self, response: Result<Vec<QuestionDetail>, DBError>) {
        self.get_questions_response = RefCell::new(Some(response));
    }
}

impl QuestionDao for QuestionDaoMock {
    fn create_question(&mut self, _: Question) -> Result<QuestionDetail, DBError> {
        self.create_question_response
            .take()
            .expect("create_question_response should not be None.")
    }

    fn delete_question(&mut self, _: String) -> Result<(), DBError> {
        self.delete_question_response
            .take()
            .expect("delete_question_response should not be None.")
    }

    fn get_questions(&self) -> Result<Vec<QuestionDetail>, DBError> {
        self.get_questions_response
            .borrow_mut()
            .take()
            .expect("get_questions_response should not be None.")
    }
}

struct AnswerDaoMock {
    create_answer_response: Option<Result<AnswerDetail, DBError>>,
    delete_answer_response: Option<Result<(), DBError>>,
    get_answers_response: RefCell<Option<Result<Vec<AnswerDetail>, DBError>>>,
}

impl AnswerDaoMock {
    fn new() -> Self {
        AnswerDaoMock {
            create_answer_response: None,
            delete_answer_response: None,
            get_answers_response: RefCell::new(None),
        }
    }

    fn mock_create_answer(&mut self, response: Result<AnswerDetail, DBError>) {
        self.create_answer_response = Some(response);
    }

    fn mock_delete_answer(&mut self, response: Result<(), DBError>) {
        self.delete_answer_response = Some(response);
    }

    fn mock_get_answers(&mut self, response: Result<Vec<AnswerDetail>, DBError>) {
        self.get_answers_response = RefCell::new(Some(response));
    }
}

impl AnswerDao for AnswerDaoMock {
    fn create_answer(&mut self, _: Answer) -> Result<AnswerDetail, DBError> {
        self.create_answer_response
            .take()
            .expect("create_answer_response should not be None.")
    }

    fn delete_answer(&mut self, _: String) -> Result<(), DBError> {
        self.delete_answer_response
            .take()
            .expect("delete_answer_response should not be None.")
    }

    fn get_answers(&self, _: String) -> Result<Vec<AnswerDetail>, DBError> {
        self.get_answers_response
            .borrow_mut()
            .take()
            .expect("get_answers_response should not be None.")
    }
}

#[test]
fn create_question_should_return_question() {
    let title = "title".to_owned();
    let description = "description".to_owned();
    let question = Question { title: title.clone(), description: description.clone() };
    let question_detail = QuestionDetail {
        title,
        description,
        question_uuid: "uuid".to_owned(),
        created_at: "some-date".to_owned(),
    };

    let mut question_dao = QuestionDaoMock::new();
    question_dao.mock_create_question_response(Ok(question_detail.clone()));

    let result = create_question(question, &mut question_dao);
    assert!(result.is_ok());
    assert_eq!(result.unwrap(), question_detail);
}

#[test]
fn create_question_should_return_error() {
    let question = Question { title: "title".to_owned(), description: "description".to_owned() };
    let mut question_dao = QuestionDaoMock::new();
    question_dao.mock_create_question_response(Err(DBError::InvalidUUID("".to_owned())));

    let result = create_question(question, &mut question_dao);
    assert!(result.is_err());
    assert!(matches!(result.unwrap_err(), HandlerError::InternalError(_)));
}

#[test]
fn get_questions_should_return_questions() {
    let questions = vec![QuestionDetail {
        title: "title".to_owned(),
        description: "description".to_owned(),
        question_uuid: "uuid".to_owned(),
        created_at: "some-date".to_owned(),
    }];
    let mut question_dao = QuestionDaoMock::new();
    question_dao.mock_get_questions_response(Ok(questions.clone()));

    let result = get_questions(&question_dao);
    assert!(result.is_ok());
    assert_eq!(result.unwrap(), questions);
}

#[test]
fn get_questions_should_return_error() {
    let mut question_dao = QuestionDaoMock::new();
    question_dao.mock_get_questions_response(Err(DBError::InvalidUUID("".to_owned())));
    let result = get_questions(&question_dao);
    assert!(result.is_err());
    assert!(matches!(result.unwrap_err(), HandlerError::InternalError(_)));
}

#[test]
fn private_delete_question_should_succeed() {
    let mut question_dao = QuestionDaoMock::new();
    question_dao.mock_delete_question_response(Ok(()));

    let result = delete_question("question_uuid".to_owned(), &mut question_dao);
    assert!(result.is_ok());
    assert_eq!(result.unwrap(), ());
}

#[test]
fn delete_question_should_return_error() {
    let mut question_dao = QuestionDaoMock::new();
    question_dao.mock_delete_question_response(Err(DBError::InvalidUUID("".to_owned())));
    let result = delete_question("question_uuid".to_owned(), &mut question_dao);
    assert!(result.is_err());
    assert!(matches!(result.unwrap_err(), HandlerError::BadRequest(_)));
}

#[test]
fn create_answer_should_return_answer() {
    let mut answer_dao = AnswerDaoMock::new();
    let answer = AnswerDetail {
        answer_uuid: "some".to_owned(),
        question_uuid: "question_uuid".to_owned(),
        content: "content".to_owned(),
        created_at: "created".to_owned(),
    };
    answer_dao.mock_create_answer(Ok(answer.clone()));

    let result = create_answer(
        Answer { question_uuid: "question_id".to_owned(), content: "content".to_owned() },
        &mut answer_dao,
    );
    assert!(result.is_ok());
    assert_eq!(result.unwrap(), answer);
}

#[test]
fn create_answer_should_return_bad_request_error() {
    let mut answer_dao = AnswerDaoMock::new();
    answer_dao.mock_create_answer(Err(DBError::InvalidUUID("".to_owned())));
    let result = create_answer(
        Answer { question_uuid: "question_id".to_owned(), content: "content".to_owned() },
        &mut answer_dao,
    );

    assert!(result.is_err());
    assert!(matches!(result.unwrap_err(), HandlerError::BadRequest(_)));
}

#[test]
fn create_answer_should_return_internal_error() {
    let mut answer_dao = AnswerDaoMock::new();
    answer_dao.mock_create_answer(Err(DBError::Other("Oh no!".to_owned())));
    let result = create_answer(
        Answer { question_uuid: "question_id".to_owned(), content: "content".to_owned() },
        &mut answer_dao,
    );
    assert!(result.is_err());
    assert!(matches!(result.unwrap_err(), HandlerError::InternalError(_)));
}

#[test]
fn get_answers_should_return_answers() {
    let answers = vec![AnswerDetail {
        answer_uuid: "some".to_owned(),
        question_uuid: "question_uuid".to_owned(),
        content: "content".to_owned(),
        created_at: "created".to_owned(),
    }];

    let mut answer_dao = AnswerDaoMock::new();
    answer_dao.mock_get_answers(Ok(answers.clone()));

    let result = get_answers("question_uuid".to_owned(), &answer_dao);
    assert!(result.is_ok());
    assert_eq!(result.unwrap(), answers);
}

#[test]
fn get_answers_should_return_error() {
    let mut answer_dao = AnswerDaoMock::new();
    answer_dao.mock_get_answers(Err(DBError::InvalidUUID("".to_owned())));

    let result = get_answers("question_uuid".to_owned(), &answer_dao);
    assert!(result.is_err());
    assert!(matches!(result.unwrap_err(), HandlerError::BadRequest(_)));
}

#[test]
fn delete_answer_should_succeed() {
    let mut answer_dao = AnswerDaoMock::new();
    answer_dao.mock_delete_answer(Ok(()));

    let result = delete_answer("answer_uuid".to_owned(), &mut answer_dao);
    assert!(result.is_ok());
}

#[test]
fn delete_answer_should_return_error() {
    let mut answer_dao = AnswerDaoMock::new();
    answer_dao.mock_delete_answer(Err(DBError::InvalidUUID("".to_owned())));

    let result = delete_answer("answer_uuid".to_owned(), &mut answer_dao);
    assert!(result.is_err());
    assert!(matches!(result.unwrap_err(), HandlerError::BadRequest(_)));
}

#[test]
fn create_question_should_fail_if_database_error_occours() {
    let mut question_dao = QuestionDaoMock::new();
    question_dao.mock_create_question_response(Err(DBError::Other("connection closed".to_owned())));

    let result = create_question(
        Question { title: "some_title".to_owned(), description: "some_desc".to_owned() },
        &mut question_dao,
    );
    assert!(result.is_err());
    assert!(matches!(result.unwrap_err(), HandlerError::InternalError(_)));
}

#[test]
fn delete_question_should_fail_if_database_error_occours() {
    let mut question_dao = QuestionDaoMock::new();
    question_dao.mock_delete_question_response(Err(DBError::Other("connection closed".to_owned())));
    let result =
        delete_question("a22abcd2-22ab-2222-a22b-2abc2a2b22cc".to_owned(), &mut question_dao);
    assert!(result.is_err());
    assert!(matches!(result.unwrap_err(), HandlerError::InternalError(_)));
}

#[test]
fn get_questions_should_fail_on_database_error() {
    let mut question_dao = QuestionDaoMock::new();
    question_dao.mock_get_questions_response(Err(DBError::Other("connection closed".to_owned())));
    let result = get_questions(&question_dao);
    assert!(result.is_err());
    assert!(matches!(result.unwrap_err(), HandlerError::InternalError(_)));
}

#[test]
fn delete_answer_should_fail_if_database_error_occurs() {
    let mut answer_dao = AnswerDaoMock::new();
    answer_dao.mock_delete_answer(Err(DBError::Other("connection closed".to_owned())));
    let result =
        delete_answer("a22abcd2-22ab-2222-a22b-2abc2a2b22cc".to_owned(), &mut answer_dao);
    assert!(result.is_err());
    assert!(matches!(result.unwrap_err(), HandlerError::InternalError(_)));
}

#[test]
fn get_answers_should_fail_if_database_error_occurs() {
    let mut answer_dao = AnswerDaoMock::new();
    answer_dao.mock_get_answers(Err(DBError::Other("connection closed".to_owned())));
    let result = get_answers("a22abcd2-22ab-2222-a22b-2abc2a2b22cc".to_owned(), &answer_dao);
    assert!(result.is_err());
    assert!(matches!(result.unwrap_err(), HandlerError::InternalError(_)));
}
