use vstd::prelude::*;

verus! {

/// Why an instruction was not carried out.
#[derive(Clone, Copy, Debug, PartialEq, Eq, Structural)]
pub enum CounterError {
    /// The instruction has no tag byte, or its payload has the wrong length.
    MalformedInstruction,
    /// The tag byte names no instruction of this program.
    UnknownInstruction,
    /// The account list is shorter than the instruction needs.
    NotEnoughAccountKeys,
    /// The host did not create the counter account.
    AccountCreationFailed,
    /// The stored bytes are too few to hold a counter.
    CorruptState,
    /// The account is not under this program's authority, or a signature is missing.
    Unauthorized,
}

impl CounterError {
    /// A short description for logs and messages.
    pub fn message(&self) -> (text: &'static str)
        ensures
            text@ == Self::message_of(*self)@,
    {
        match self {
            CounterError::MalformedInstruction => "malformed instruction",
            CounterError::UnknownInstruction => "unknown instruction",
            CounterError::NotEnoughAccountKeys => "not enough account keys",
            CounterError::AccountCreationFailed => "account creation failed",
            CounterError::CorruptState => "corrupt counter state",
            CounterError::Unauthorized => "unauthorized",
        }
    }

    /// The description that belongs to each error.
    pub open spec fn message_of(error: CounterError) -> &'static str {
        match error {
            CounterError::MalformedInstruction => "malformed instruction",
            CounterError::UnknownInstruction => "unknown instruction",
            CounterError::NotEnoughAccountKeys => "not enough account keys",
            CounterError::AccountCreationFailed => "account creation failed",
            CounterError::CorruptState => "corrupt counter state",
            CounterError::Unauthorized => "unauthorized",
        }
    }
}

} // verus!
