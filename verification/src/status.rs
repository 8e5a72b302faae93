use vstd::prelude::*;
use vstd::string::StringExecFns;

verus! {

/// The gRPC status codes that the sidecar answers with.
#[derive(Clone, Copy, Debug, PartialEq, Eq, Structural)]
pub enum Code {
    Internal,
    InvalidArgument,
    NotFound,
    AlreadyExists,
    ResourceExhausted,
    Unimplemented,
}

/// An error answered to a caller: a status code and a human readable message.
#[derive(Debug)]
pub struct Status {
    pub code: Code,
    pub message: String,
}

/// What a `Status` is, as a value of specifications.
pub struct StatusView {
    pub code: Code,
    pub message: Seq<char>,
}

impl View for Status {
    type V = StatusView;

    open spec fn view(&self) -> StatusView {
        StatusView { code: self.code, message: self.message@ }
    }
}

/// The status with the given code and message.
pub open spec fn status(code: Code, message: Seq<char>) -> StatusView {
    StatusView { code, message }
}

/// Maps the error of a result to its view.
pub open spec fn result_view<T>(r: Result<T, Status>) -> Result<T, StatusView> {
    match r {
        Ok(v) => Ok(v),
        Err(e) => Err(e@),
    }
}

impl Status {
    /// A status with code `Internal`.
    pub fn internal(message: &str) -> (s: Status)
        ensures
            s@ == status(Code::Internal, message@),
    {
        Status { code: Code::Internal, message: String::from_str(message) }
    }

    /// A status with code `InvalidArgument`.
    pub fn invalid_argument(message: &str) -> (s: Status)
        ensures
            s@ == status(Code::InvalidArgument, message@),
    {
        Status { code: Code::InvalidArgument, message: String::from_str(message) }
    }

    /// A status with code `NotFound`.
    pub fn not_found(message: &str) -> (s: Status)
        ensures
            s@ == status(Code::NotFound, message@),
    {
        Status { code: Code::NotFound, message: String::from_str(message) }
    }

    /// A status with code `AlreadyExists`.
    pub fn already_exists(message: &str) -> (s: Status)
        ensures
            s@ == status(Code::AlreadyExists, message@),
    {
        Status { code: Code::AlreadyExists, message: String::from_str(message) }
    }

    /// A status with code `ResourceExhausted`.
    pub fn resource_exhausted(message: &str) -> (s: Status)
        ensures
            s@ == status(Code::ResourceExhausted, message@),
    {
        Status { code: Code::ResourceExhausted, message: String::from_str(message) }
    }

    /// A status with code `Unimplemented`.
    pub fn unimplemented(message: &str) -> (s: Status)
        ensures
            s@ == status(Code::Unimplemented, message@),
    {
        Status { code: Code::Unimplemented, message: String::from_str(message) }
    }
}

} // verus!
