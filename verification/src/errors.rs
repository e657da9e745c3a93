use vstd::prelude::*;

verus! {

/// Classification of every failure the repository can report to a caller.
#[derive(Clone, Copy, PartialEq, Eq, Structural, Debug)]
pub enum RepoError {
    /// The caller's address is blacklisted.
    Forbidden,
    /// The admin token is missing or not in the token set.
    Unauthorized,
    /// The request is malformed: the `name` or the `file` part is missing.
    BadRequest,
    /// The identifier resolves to no record and is no content hash,
    /// or the resolved file is absent.
    NotFound,
    /// An I/O or persistence step failed.
    InternalError,
}

impl RepoError {
    /// The HTTP status code conventionally attached to this error.
    pub fn status_code(&self) -> (c: u16)
        ensures
            c == self.spec_status_code(),
    {
        match self {
            RepoError::Forbidden => 403,
            RepoError::Unauthorized => 401,
            RepoError::BadRequest => 400,
            RepoError::NotFound => 404,
            RepoError::InternalError => 500,
        }
    }

    pub open spec fn spec_status_code(&self) -> u16 {
        match self {
            RepoError::Forbidden => 403,
            RepoError::Unauthorized => 401,
            RepoError::BadRequest => 400,
            RepoError::NotFound => 404,
            RepoError::InternalError => 500,
        }
    }
}

} // verus!
