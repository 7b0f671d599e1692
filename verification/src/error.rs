use vstd::prelude::*;

verus! {

/// What can go wrong between the command line and the consolidated list.
#[derive(Debug, PartialEq, Eq)]
pub enum Error {
    /// A request could not be prepared independently of the others.
    UnableToCloneClient,
    /// No record survived retrieval and filtering.
    NoRecordsToProcess,
    /// A text that names none of the four environments.
    InvalidEnvironmentTarget(String),
    /// A request failed in transport or its answer could not be decoded; the
    /// text is the failure's own description.
    Reqwest(String),
}

impl Error {
    /// The message that a reader is shown for this error.
    pub open spec fn message(self) -> Seq<char> {
        match self {
            Error::UnableToCloneClient => "Unable to process URL"@,
            Error::NoRecordsToProcess => "No records to process"@,
            Error::InvalidEnvironmentTarget(target) => "Invalid target `"@ + target@
                + "` specified"@,
            Error::Reqwest(cause) => "Unable to process request. "@ + cause@,
        }
    }

    /// What is reported when a single environment's request fails with this
    /// error: the failure's own description for a failure in transport or
    /// decoding, a fixed line where the request could not be prepared, and
    /// another fixed line for anything else.
    pub open spec fn diagnostic(self) -> Seq<char> {
        match self {
            Error::Reqwest(cause) => cause@,
            Error::UnableToCloneClient => "Unable to process request"@,
            _ => "Failed to retrieve ssr records from endpoint!"@,
        }
    }

    pub fn to_string(&self) -> (text: String)
        ensures
            text@ == self.message(),
    {
        match self {
            Error::UnableToCloneClient => "Unable to process URL".to_owned(),
            Error::NoRecordsToProcess => "No records to process".to_owned(),
            Error::InvalidEnvironmentTarget(target) => {
                let mut text = "Invalid target `".to_owned();
                text.append(target.as_str());
                text.append("` specified");
                text
            },
            Error::Reqwest(cause) => {
                let mut text = "Unable to process request. ".to_owned();
                text.append(cause.as_str());
                text
            },
        }
    }

    /// The line to report when one environment's request failed with this
    /// error.
    pub fn to_diagnostic(&self) -> (text: String)
        ensures
            text@ == self.diagnostic(),
    {
        match self {
            Error::Reqwest(cause) => cause.clone(),
            Error::UnableToCloneClient => "Unable to process request".to_owned(),
            _ => "Failed to retrieve ssr records from endpoint!".to_owned(),
        }
    }
}

} // verus!
