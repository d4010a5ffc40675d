use vstd::prelude::*;

verus! {

/// The status codes that the TFLite Micro wrapper returns.
#[derive(Clone, Copy, Debug, PartialEq, Eq, Structural)]
pub enum Status {
    /// The call succeeded.
    Success,
    ErrorVersionMismatch,
    ErrorAllocationFailed,
    ErrorInvokeFailed,
    ErrorNotInitialized,
}

impl Status {
    /// The integer that the wrapper uses for the status.
    pub open spec fn spec_code(self) -> i32 {
        match self {
            Status::Success => 0,
            Status::ErrorVersionMismatch => -1i32,
            Status::ErrorAllocationFailed => -2i32,
            Status::ErrorInvokeFailed => -3i32,
            Status::ErrorNotInitialized => -4i32,
        }
    }

    pub fn code(&self) -> (code: i32)
        ensures
            code == self.spec_code(),
    {
        match self {
            Status::Success => 0,
            Status::ErrorVersionMismatch => -1,
            Status::ErrorAllocationFailed => -2,
            Status::ErrorInvokeFailed => -3,
            Status::ErrorNotInitialized => -4,
        }
    }

    /// The status that the wrapper's integer `code` stands for, if any.
    pub fn from_code(code: i32) -> (status: Option<Status>)
        ensures
            match status {
                Some(s) => s.spec_code() == code,
                None => forall|s: Status| s.spec_code() != code,
            },
    {
        match code {
            0 => Some(Status::Success),
            -1 => Some(Status::ErrorVersionMismatch),
            -2 => Some(Status::ErrorAllocationFailed),
            -3 => Some(Status::ErrorInvokeFailed),
            -4 => Some(Status::ErrorNotInitialized),
            _ => None,
        }
    }
}

/// Every status has its own code, so `from_code` gives back the status that
/// `code` came from.
pub proof fn lemma_status_codes_distinct(a: Status, b: Status)
    ensures
        a.spec_code() == b.spec_code() ==> a == b,
{
}

} // verus!
