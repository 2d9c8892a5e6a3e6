//! The error taxonomy of the core. Errors cross at most one layer: matcher
//! errors stop at the producer, producer errors at the pipeline, pipeline
//! errors at the connection.

use vstd::prelude::*;

verus! {

/// Every failure the core can report.
#[derive(Clone, Debug)]
pub enum Error {
    /// No mapping matched the incoming request; recovered as a 404 response.
    NoMatch,
    /// A declared body file could not be resolved under the files root.
    BodyFileMissing,
    /// The upstream round trip failed or timed out; the description is served
    /// as the response body.
    UpstreamError(String),
    /// The inbound byte stream was not a valid HTTP/1.1 request; fatal for
    /// the connection it arrived on.
    CodecError(String),
    /// A mapping file, environment or address could not be used at startup.
    ConfigError(String),
    /// The producer failed outright; recovered as a 503 response.
    ProducerError(String),
}

impl Error {
    /// A short human-readable description of the failure.
    pub fn message(&self) -> (m: String)
        ensures
            self is NoMatch ==> m@ == "No mapping found"@,
            self is BodyFileMissing ==> m@ == "Body file not found!"@,
            self matches Error::UpstreamError(s) ==> m@ == s@,
            self matches Error::CodecError(s) ==> m@ == s@,
            self matches Error::ConfigError(s) ==> m@ == s@,
            self matches Error::ProducerError(s) ==> m@ == s@,
    {
        match self {
            Error::NoMatch => "No mapping found".to_owned(),
            Error::BodyFileMissing => "Body file not found!".to_owned(),
            Error::UpstreamError(s) => s.clone(),
            Error::CodecError(s) => s.clone(),
            Error::ConfigError(s) => s.clone(),
            Error::ProducerError(s) => s.clone(),
        }
    }
}

} // verus!
