//! What an operation that cannot go on reports.
use vstd::prelude::*;

verus! {

/// A failure, as the sentence that is shown for it.
#[derive(Debug, Clone)]
pub struct Failure {
    pub message: String,
}

impl Failure {
    pub fn new(message: String) -> (r: Failure)
        ensures
            r.message@ == message@,
    {
        Failure { message }
    }
}

/// Whether `r` is the failure that says `message`.
pub open spec fn failed<T>(r: Result<T, Failure>, message: Seq<char>) -> bool {
    r matches Err(e) && e.message@ == message
}

/// What an operation gives: its result by view, or the sentence of its failure.
pub open spec fn outcome<T: View>(r: Result<T, Failure>) -> Result<T::V, Seq<char>> {
    match r {
        Ok(t) => Ok(t@),
        Err(e) => Err(e.message@),
    }
}

/// The failure that says `message`.
pub fn fail<T>(message: String) -> (r: Result<T, Failure>)
    ensures
        failed(r, message@),
{
    Err(Failure { message })
}

/// The failure that says `message`.
pub fn fail_with<T>(message: &str) -> (r: Result<T, Failure>)
    ensures
        failed(r, message@),
{
    Err(Failure { message: message.to_owned() })
}

} // verus!
