use vstd::prelude::*;

verus! {

/// A human-readable failure, shared by both halves of the protocol.
#[non_exhaustive]
#[derive(Debug)]
pub struct ChookError {
    pub msg: String,
}

impl ChookError {
    /// An error carrying the given message.
    pub fn new(msg: &str) -> (r: ChookError)
        ensures
            r.msg@ == msg@,
    {
        ChookError { msg: msg.to_string() }
    }

    /// The message of this error.
    pub fn message(&self) -> (r: String)
        ensures
            r@ == self.msg@,
    {
        self.msg.clone()
    }
}

} // verus!
