//! A job board engine: postings owned by the account that created them,
//! replies attached to postings, owner-checked deletion that cascades to the
//! replies of the removed posting, and paginated listing in creation order.

pub mod board;
pub mod laws;
pub mod records;

pub use board::JobBoard;
pub use records::{BoardError, Posting, Reply};
