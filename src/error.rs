use vstd::prelude::*;

verus! {

/// What can go wrong with one request on the quiz collection.
#[derive(Debug, Clone, PartialEq, Eq)]
pub enum Error {
    /// The identifier text is not 24 hexadecimal digits; it carries that text.
    InvalidIdentifier(String),
    /// The identifier is well formed but names no stored quiz.
    NotFound,
    /// A stored record lacks a required field, or holds one of the wrong shape.
    Mapping,
    /// The store could not be reached or failed to run the query.
    Connection,
    /// A request body was not a well-formed quiz request.
    BadRequest,
}

impl Error {
    /// The HTTP status that a request failing with this error answers with.
    pub fn status_code(&self) -> (r: u16)
        ensures
            r == status_of(*self),
    {
        match self {
            Error::InvalidIdentifier(_) => 400,
            Error::NotFound => 404,
            Error::Mapping => 400,
            Error::Connection => 500,
            Error::BadRequest => 400,
        }
    }
}

/// The status code of each error kind.
pub open spec fn status_of(e: Error) -> u16 {
    match e {
        Error::InvalidIdentifier(_) => 400,
        Error::NotFound => 404,
        Error::Mapping => 400,
        Error::Connection => 500,
        Error::BadRequest => 400,
    }
}

} // verus!
