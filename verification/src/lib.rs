//! Small helpers on numbers, scores, texts and lists, each with a contract that says what
//! it returns.

pub mod encoding;
pub mod grades;
pub mod lists;
pub mod numbers;
pub mod text;
pub mod white_space;
