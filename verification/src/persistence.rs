pub mod answer_dao;
pub mod memory;
pub mod question_dao;
