//! A small question-and-answer service core: an in-memory store of questions
//! keyed by their identifier, the parsing of a pagination window out of query
//! parameters, and the handlers that list and add questions. Every function
//! carries a contract and is proved against it.

pub mod error;
pub mod handlers;
pub mod index;
pub mod pagination;
pub mod question;
pub mod store;

pub use error::{Error, IntErrorKind};
pub use index::parse_index;
pub use pagination::{extract_pagination, Pagination};
pub use question::{Question, QuestionId, QuestionView};
pub use store::Store;
pub use handlers::{add_question, get_questions, return_error, Listing, Refusal, Reply};
pub use vstd::hash_map::StringHashMap;
