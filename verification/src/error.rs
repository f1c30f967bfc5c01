use vstd::prelude::*;

verus! {

/// The two ways a request can fail.
#[derive(Debug, Clone, Copy, PartialEq, Eq, Structural)]
pub enum AppError {
    /// No record is stored under the short code that was asked for.
    NotFound,
    /// The submitted URL starts with neither `http://` nor `https://`.
    InvalidUrl,
}

impl AppError {
    /// The HTTP status that reports this error.
    pub open spec fn spec_status_code(self) -> u16 {
        match self {
            AppError::NotFound => 404,
            AppError::InvalidUrl => 400,
        }
    }

    /// The text sent to the client in the `error` field of the body.
    pub open spec fn spec_message(self) -> Seq<char> {
        match self {
            AppError::NotFound => "URL not found"@,
            AppError::InvalidUrl => "Invalid URL provided"@,
        }
    }

    /// The short description used in logs.
    pub open spec fn spec_description(self) -> Seq<char> {
        match self {
            AppError::NotFound => "Not found"@,
            AppError::InvalidUrl => "Invalid URL"@,
        }
    }

    #[verifier::when_used_as_spec(spec_status_code)]
    pub fn status_code(self) -> (code: u16)
        ensures
            code == self.spec_status_code(),
    {
        match self {
            AppError::NotFound => 404,
            AppError::InvalidUrl => 400,
        }
    }

    pub fn message(self) -> (text: String)
        ensures
            text@ == self.spec_message(),
    {
        match self {
            AppError::NotFound => "URL not found".to_owned(),
            AppError::InvalidUrl => "Invalid URL provided".to_owned(),
        }
    }

    pub fn description(self) -> (text: String)
        ensures
            text@ == self.spec_description(),
    {
        match self {
            AppError::NotFound => "Not found".to_owned(),
            AppError::InvalidUrl => "Invalid URL".to_owned(),
        }
    }

    /// Status and message together, as a response is built from them.
    pub fn response_parts(self) -> (parts: (u16, String))
        ensures
            parts.0 == self.spec_status_code(),
            parts.1@ == self.spec_message(),
    {
        (self.status_code(), self.message())
    }
}

} // verus!
