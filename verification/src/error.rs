//! Error kinds and a chainable error value used across the library.

use vstd::prelude::*;
use vstd::string::*;

verus! {

/// The broad category of a failure.
#[derive(Debug, Clone, Copy, PartialEq, Eq, Structural)]
pub enum ErrorKind {
    Phenics,
    Clap,
    IO,
    VcfHeaderParse,
    Genotype,
    Weighted,
    Normal,
    ParseInt,
    ParseFloat,
    Reqwest,
    ToStr,
    GCAuth,
    RemoteFetch,
    HeaderParse,
    SeekUnsupported,
    Decode,
    ProcessorFailure,
    Unknown,
}

/// An error with a kind, a message and an optional wrapped cause.
#[derive(Debug)]
pub struct Error {
    pub kind: ErrorKind,
    pub message: String,
    pub sub_error: Option<Box<Error>>,
}

impl Error {
    /// Creates an error with no wrapped cause.
    pub fn new(kind: ErrorKind, message: String) -> (error: Error)
        ensures
            error.kind == kind,
            error.message == message,
            error.sub_error is None,
    {
        let sub_error: Option<Box<Error>> = None;
        Error { kind, message, sub_error }
    }

    /// Creates an error that may wrap a cause.
    pub fn new_wrap(kind: ErrorKind, message: String, sub_error: Option<Box<Error>>) -> (error:
        Error)
        ensures
            error.kind == kind,
            error.message == message,
            error.sub_error == sub_error,
    {
        Error { kind, message, sub_error }
    }

    /// Creates a `Phenics`-kind error from a message, the library's default kind.
    pub fn from_message(message: String) -> (error: Error)
        ensures
            error.kind == ErrorKind::Phenics,
            error.message == message,
            error.sub_error is None,
    {
        Error::new(ErrorKind::Phenics, message)
    }
}

/// Turns `None` into a `Phenics`-kind error carrying `message`.
pub fn none_to_error<T>(option: Option<T>, message: &str) -> (result: Result<T, Error>)
    ensures
        option matches Some(value) ==> (result matches Ok(r) && r == value),
        option is None ==> (result matches Err(e) && e.kind == ErrorKind::Phenics && e.message@
            == message@),
{
    match option {
        Some(value) => Ok(value),
        None => Err(Error::from_message(message.to_owned())),
    }
}

/// The label that names each error kind.
pub open spec fn kind_label(kind: ErrorKind) -> Seq<char> {
    match kind {
        ErrorKind::Phenics => "Phenics"@,
        ErrorKind::Clap => "Clap"@,
        ErrorKind::IO => "IO"@,
        ErrorKind::VcfHeaderParse => "VcfHeaderParse"@,
        ErrorKind::Genotype => "Genotype"@,
        ErrorKind::Weighted => "Weighted"@,
        ErrorKind::Normal => "Normal"@,
        ErrorKind::ParseInt => "ParseInt"@,
        ErrorKind::ParseFloat => "ParseFloat"@,
        ErrorKind::Reqwest => "Reqwest"@,
        ErrorKind::ToStr => "ToStr"@,
        ErrorKind::GCAuth => "GCAuth"@,
        ErrorKind::RemoteFetch => "RemoteFetch"@,
        ErrorKind::HeaderParse => "HeaderParse"@,
        ErrorKind::SeekUnsupported => "SeekUnsupported"@,
        ErrorKind::Decode => "Decode"@,
        ErrorKind::ProcessorFailure => "ProcessorFailure"@,
        ErrorKind::Unknown => "[unknown error type]"@,
    }
}

impl ErrorKind {
    /// The label that names this error kind.
    pub fn as_str(&self) -> (label: &str)
        ensures
            label@ == kind_label(*self),
    {
        match self {
            ErrorKind::Phenics => "Phenics",
            ErrorKind::Clap => "Clap",
            ErrorKind::IO => "IO",
            ErrorKind::VcfHeaderParse => "VcfHeaderParse",
            ErrorKind::Genotype => "Genotype",
            ErrorKind::Weighted => "Weighted",
            ErrorKind::Normal => "Normal",
            ErrorKind::ParseInt => "ParseInt",
            ErrorKind::ParseFloat => "ParseFloat",
            ErrorKind::Reqwest => "Reqwest",
            ErrorKind::ToStr => "ToStr",
            ErrorKind::GCAuth => "GCAuth",
            ErrorKind::RemoteFetch => "RemoteFetch",
            ErrorKind::HeaderParse => "HeaderParse",
            ErrorKind::SeekUnsupported => "SeekUnsupported",
            ErrorKind::Decode => "Decode",
            ErrorKind::ProcessorFailure => "ProcessorFailure",
            ErrorKind::Unknown => "[unknown error type]",
        }
    }
}

/// The one-line (per cause) text of an error: `kind: message` chained with
/// the causes, the innermost line ending in a newline.
pub open spec fn render_spec(error: Error) -> Seq<char>
    decreases error,
{
    match error.sub_error {
        None => kind_label(error.kind) + ": "@ + error.message@ + "\n"@,
        Some(sub) => kind_label(error.kind) + ": "@ + error.message@ + ": "@ + render_spec(*sub),
    }
}

impl Error {
    /// Renders the error and its causal chain as text.
    pub fn render(&self) -> (text: String)
        ensures
            text@ == render_spec(*self),
        decreases *self,
    {
        let mut text = self.kind.as_str().to_owned();
        text.append(": ");
        text.append(self.message.as_str());
        match &self.sub_error {
            None => {
                text.append("\n");
            },
            Some(sub) => {
                text.append(": ");
                let sub_text = sub.render();
                text.append(sub_text.as_str());
            },
        }
        text
    }
}

} // verus!
