use vstd::prelude::*;

verus! {

/// Failure reported by a command-surface operation.
///
/// `NotFound` covers every operation that names a session identifier absent
/// from the registry. `Io` carries the textual cause of a read, write, flush
/// or resize failure verbatim. `DuplicateId` reports a freshly minted
/// identifier that was already seen, which signals a broken identifier
/// generator rather than a caller mistake.
#[derive(Debug)]
pub enum SessionError {
    NotFound,
    Io(String),
    DuplicateId,
}

impl SessionError {
    /// The single textual form every error takes at the caller boundary.
    pub fn message(self) -> (r: String)
        ensures
            self is NotFound ==> r@ == "Terminal session not found"@,
            self matches SessionError::Io(cause) ==> r@ == cause@,
            self is DuplicateId ==> r@ == "terminal identifier already in use"@,
    {
        match self {
            SessionError::NotFound => "Terminal session not found".to_owned(),
            SessionError::Io(cause) => cause,
            SessionError::DuplicateId => "terminal identifier already in use".to_owned(),
        }
    }
}

} // verus!
