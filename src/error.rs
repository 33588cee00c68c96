use vstd::prelude::*;

verus! {

/// The closed set of failures that the store reports; every underlying
/// failure is mapped into exactly one of these kinds.
#[derive(Debug, Clone, PartialEq, Eq)]
pub enum StorageError {
    /// The document is absent at the requested revision.
    NotFound(String),
    /// The object database failed, or a revision id did not resolve.
    Repository(String),
    /// A stored blob is not valid UTF-8 text.
    Encoding(String),
    /// A filesystem operation failed.
    Io(String),
}

impl StorageError {
    /// Whether this is the `NotFound` kind.
    pub fn is_not_found(&self) -> (r: bool)
        ensures
            r == (self is NotFound),
    {
        match self {
            StorageError::NotFound(_) => true,
            _ => false,
        }
    }
}

} // verus!
