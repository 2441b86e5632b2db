//! Errors that the library reports.

use vstd::prelude::*;

verus! {

/// Whether `m` is the message of the first of `n` elements that fails.
pub open spec fn first_failure(n: int, fails: spec_fn(int) -> bool, msg: spec_fn(int) -> Seq<char>, m: Seq<char>) -> bool {
    exists|i: int| 0 <= i < n && #[trigger] fails(i) && (forall|j: int| 0 <= j < i ==> !#[trigger] fails(j)) && m == msg(i)
}

/// A project name, a Compose document or another input of the caller is invalid.
#[derive(Debug)]
pub struct InvalidInput(pub String);

/// The requested Compose project does not exist.
#[derive(Debug)]
pub struct StackNotFound(pub String);

impl InvalidInput {
    /// An error with the given message.
    pub fn new(message: &str) -> (r: InvalidInput)
        ensures
            r.0@ == message@,
    {
        InvalidInput(message.to_owned())
    }

    /// The message.
    pub fn message(&self) -> (r: &str)
        ensures
            r@ == self.0@,
    {
        self.0.as_str()
    }
}

impl StackNotFound {
    /// An error with the given message.
    pub fn new(message: &str) -> (r: StackNotFound)
        ensures
            r.0@ == message@,
    {
        StackNotFound(String::from_str(message))
    }

    /// The message.
    pub fn message(&self) -> (r: &str)
        ensures
            r@ == self.0@,
    {
        self.0.as_str()
    }
}

} // verus!
