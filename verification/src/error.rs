use vstd::prelude::*;
use vstd::string::StringExecFns;

verus! {

/// A failure of one gateway operation. Transport failures become `Network`,
/// a reply that does not match the expected shape becomes `ParseError`, and
/// `CommandError` is reserved for internal command failures.
#[derive(Debug)]
pub enum ApiError {
    Network(String),
    ParseError(String),
    CommandError(String),
}

impl ApiError {
    /// The full human-readable text of this error: a fixed prefix naming the
    /// failure class, followed by the carried detail.
    pub open spec fn message_spec(&self) -> Seq<char> {
        match self {
            ApiError::Network(m) => "Network request failed: "@ + m@,
            ApiError::ParseError(m) => "Failed to parse response: "@ + m@,
            ApiError::CommandError(m) => "Command execution failed: "@ + m@,
        }
    }

    /// The detail string alone, as it crosses the UI boundary.
    pub open spec fn detail_spec(&self) -> Seq<char> {
        match self {
            ApiError::Network(m) => m@,
            ApiError::ParseError(m) => m@,
            ApiError::CommandError(m) => m@,
        }
    }

    pub fn message(&self) -> (res: String)
        ensures
            res@ == self.message_spec(),
    {
        match self {
            ApiError::Network(m) => {
                let mut s = "Network request failed: ".to_owned();
                s.append(m.as_str());
                s
            },
            ApiError::ParseError(m) => {
                let mut s = "Failed to parse response: ".to_owned();
                s.append(m.as_str());
                s
            },
            ApiError::CommandError(m) => {
                let mut s = "Command execution failed: ".to_owned();
                s.append(m.as_str());
                s
            },
        }
    }

    /// The detail string alone, for a caller that reports only the underlying
    /// cause.
    pub fn detail(&self) -> (res: String)
        ensures
            res@ == self.detail_spec(),
    {
        match self {
            ApiError::Network(m) => m.as_str().to_owned(),
            ApiError::ParseError(m) => m.as_str().to_owned(),
            ApiError::CommandError(m) => m.as_str().to_owned(),
        }
    }
}

/// Every transport failure is classified as `Network`, keeping the
/// transport's own description of the failure as the detail.
pub fn network_error(detail: String) -> (res: ApiError)
    ensures
        res == ApiError::Network(detail),
        res.message_spec() == "Network request failed: "@ + detail@,
{
    ApiError::Network(detail)
}

} // verus!
