use vstd::prelude::*;

verus! {

/// A job listing. Its `id` is issued by the board and never reused.
#[derive(Debug)]
pub struct Posting {
    pub id: u32,
    pub title: String,
    pub description: String,
    pub contact: String,
}

impl Clone for Posting {
    fn clone(&self) -> (r: Self)
        ensures
            r == *self,
    {
        Posting {
            id: self.id,
            title: self.title.clone(),
            description: self.description.clone(),
            contact: self.contact.clone(),
        }
    }
}

/// A response to a posting. Which posting it answers is kept by the board's
/// reply index, not in the record itself.
#[derive(Debug)]
pub struct Reply {
    pub github: String,
    pub description: String,
    pub contact: String,
}

impl Clone for Reply {
    fn clone(&self) -> (r: Self)
        ensures
            r == *self,
    {
        Reply {
            github: self.github.clone(),
            description: self.description.clone(),
            contact: self.contact.clone(),
        }
    }
}

/// Why an operation on the board did not happen. A failed operation leaves
/// the board exactly as it was.
#[derive(Debug, Clone, Copy, PartialEq, Eq, Structural)]
pub enum BoardError {
    /// No posting has the requested id.
    NotFound,
    /// The caller is not the account that created the posting.
    Unauthorized,
    /// A listing was asked of a board without postings.
    EmptyCollection,
    /// The board was already initialized.
    AlreadyInitialized,
    /// Every identifier of the counter's width has been issued.
    IdsExhausted,
}

} // verus!
