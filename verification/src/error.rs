//! The failures a session can end with.

use vstd::prelude::*;

verus! {

#[verifier::external_type_specification]
#[verifier::external_body]
pub struct ExIoError(std::io::Error);

#[verifier::external_type_specification]
#[verifier::external_body]
pub struct ExRecvError(std::sync::mpsc::RecvError);

#[derive(Debug)]
pub enum Error {
    /// The terminal could not be drawn to.
    UnableToDraw { from: &'static str, e: std::io::Error },
    /// Every event producer is gone: the session's wiring failed.
    EventReceiveError(std::sync::mpsc::RecvError),
    /// Standard input is an interactive terminal: there is nothing to do.
    NoStdin,
}

/// Relies on io::Error's Display impl for the text of the underlying
/// failure; nothing about that text is promised.
#[verifier::external_body]
fn io_error_text(e: &std::io::Error) -> (r: String) {
    format!("{e}")
}

/// Relies on RecvError's Display impl for its text; nothing about that
/// text is promised.
#[verifier::external_body]
fn recv_error_text(e: &std::sync::mpsc::RecvError) -> (r: String) {
    format!("{e}")
}

/// Relies on String::push_str: appends the slice to the end of the string.
#[verifier::external_body]
fn append_str(s: &mut String, t: &str)
    ensures
        final(s)@ == old(s)@ + t@,
{
    s.push_str(t)
}

impl Error {
    /// The user-facing description of the failure.
    pub fn message(&self) -> (r: String)
        ensures
            self is NoStdin ==> r@ == "Nothing to do"@,
    {
        match self {
            Error::UnableToDraw { from, e } => {
                let mut s = String::new();
                append_str(&mut s, "Unable To Draw: ");
                append_str(&mut s, from);
                append_str(&mut s, "\n");
                let detail = io_error_text(e);
                append_str(&mut s, detail.as_str());
                s
            },
            Error::EventReceiveError(e) => {
                let mut s = String::new();
                append_str(&mut s, "Event Receive Error: ");
                let detail = recv_error_text(e);
                append_str(&mut s, detail.as_str());
                s
            },
            Error::NoStdin => "Nothing to do".to_owned(),
        }
    }
}

impl From<std::sync::mpsc::RecvError> for Error {
    fn from(value: std::sync::mpsc::RecvError) -> Self {
        Error::EventReceiveError(value)
    }
}

impl vstd::std_specs::convert::FromSpecImpl<std::sync::mpsc::RecvError> for Error {
    open spec fn obeys_from_spec() -> bool {
        true
    }

    open spec fn from_spec(t: std::sync::mpsc::RecvError) -> Error {
        Error::EventReceiveError(t)
    }
}

} // verus!
