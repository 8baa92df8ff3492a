//! What goes wrong.

use vstd::prelude::*;

verus! {

/// The class of an [`Error`], after `std::io::ErrorKind`.
#[derive(Debug, Clone, Copy, PartialEq, Eq, Structural)]
pub enum ErrorKind {
    /// A value that cannot be used was passed in.
    InvalidInput,
    /// The kernel took only part of an event.
    WriteZero,
}

/// An error found by this library, as opposed to one reported by the kernel.
#[derive(Debug)]
pub struct Error {
    /// The class of the error.
    pub kind: ErrorKind,
    /// What to tell the user.
    pub message: String,
}

impl Error {
    /// Whether this is an `InvalidInput` error saying `message`.
    pub open spec fn is_invalid(self, message: Seq<char>) -> bool {
        self.kind == ErrorKind::InvalidInput && self.message@ == message
    }
}

/// An `InvalidInput` error saying `message`.
pub fn invalid(message: &'static str) -> (error: Error)
    ensures
        error.is_invalid(message@),
{
    Error { kind: ErrorKind::InvalidInput, message: message.to_owned() }
}

/// Why an operation on the device failed.
#[derive(Debug)]
pub enum Failure<E> {
    /// The kernel reported an error.
    Kernel(E),
    /// This library refused to go on.
    Refused(Error),
}

/// An error is an `InvalidInput` error saying `message` exactly when its class
/// and its words are those.
pub proof fn law_an_invalid_input_says_so(error: Error, message: Seq<char>)
    ensures
        error.is_invalid(message) <==> error.kind == ErrorKind::InvalidInput && error.message@
            == message,
        error.is_invalid(message) ==> error.kind != ErrorKind::WriteZero,
{
}

} // verus!
