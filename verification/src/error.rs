//! The failures that the pipeline reports.

use vstd::prelude::*;

verus! {

/// Why an operation of the pipeline failed.
#[derive(Debug, PartialEq, Eq)]
pub enum Error {
    /// A device, codec or container could not be initialised.
    Setup,
    /// The output could not be written.
    IoError,
    /// A size or duration cap was reached.
    LimitReached,
    /// The caller supplied inconsistent parameters.
    Validation(String),
    /// A codec or container operation failed after initialisation.
    Encoding(String),
    /// A GPU resource or shader failed.
    ConversionError(String),
}

/// The class of an [`Error`], without its message.
#[derive(Clone, Copy, Debug, PartialEq, Eq, Structural)]
pub enum ErrorKind {
    Setup,
    IoError,
    LimitReached,
    Validation,
    Encoding,
    ConversionError,
}

impl Error {
    /// The message carried by the error; empty for the kinds that carry none.
    pub open spec fn detail(&self) -> Seq<char> {
        match *self {
            Error::Validation(m) => m@,
            Error::Encoding(m) => m@,
            Error::ConversionError(m) => m@,
            _ => Seq::<char>::empty(),
        }
    }

    /// The class of the error.
    pub open spec fn spec_kind(&self) -> ErrorKind {
        match *self {
            Error::Setup => ErrorKind::Setup,
            Error::IoError => ErrorKind::IoError,
            Error::LimitReached => ErrorKind::LimitReached,
            Error::Validation(_) => ErrorKind::Validation,
            Error::Encoding(_) => ErrorKind::Encoding,
            Error::ConversionError(_) => ErrorKind::ConversionError,
        }
    }

    /// The class of the error.
    #[verifier::when_used_as_spec(spec_kind)]
    pub fn kind(&self) -> (k: ErrorKind)
        ensures
            k == self.spec_kind(),
    {
        match self {
            Error::Setup => ErrorKind::Setup,
            Error::IoError => ErrorKind::IoError,
            Error::LimitReached => ErrorKind::LimitReached,
            Error::Validation(_) => ErrorKind::Validation,
            Error::Encoding(_) => ErrorKind::Encoding,
            Error::ConversionError(_) => ErrorKind::ConversionError,
        }
    }

    /// A copy of the message carried by the error.
    pub fn message(&self) -> (m: String)
        ensures
            m@ == self.detail(),
    {
        match self {
            Error::Validation(m) => m.clone(),
            Error::Encoding(m) => m.clone(),
            Error::ConversionError(m) => m.clone(),
            _ => String::new(),
        }
    }

    /// An encoding failure whose message is `context` followed by `detail`.
    pub fn encoding(context: &str, detail: &str) -> (e: Error)
        ensures
            e.spec_kind() == ErrorKind::Encoding,
            e.detail() == context@ + detail@,
    {
        Error::Encoding(String::from_str(context).concat(detail))
    }

    /// A validation failure whose message is `context` followed by `detail`.
    pub fn validation(context: &str, detail: &str) -> (e: Error)
        ensures
            e.spec_kind() == ErrorKind::Validation,
            e.detail() == context@ + detail@,
    {
        Error::Validation(String::from_str(context).concat(detail))
    }

    /// A conversion failure whose message is `context` followed by `detail`.
    pub fn conversion(context: &str, detail: &str) -> (e: Error)
        ensures
            e.spec_kind() == ErrorKind::ConversionError,
            e.detail() == context@ + detail@,
    {
        Error::ConversionError(String::from_str(context).concat(detail))
    }
}

} // verus!
