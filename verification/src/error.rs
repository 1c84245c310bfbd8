//! The error of the count-shaped read and write contracts: a raw system
//! code, a bare kind, or a kind with a message.

use vstd::prelude::*;
use vstd::std_specs::convert::FromSpecImpl;
use std::io::ErrorKind;
use crate::outcome::{FormatterError, InvalidUtf8, UnexpectedEndOfFile};

verus! {

/// `std::io::ErrorKind`, the list of general categories of I/O error.
#[verifier::external_type_specification]
pub struct ExErrorKind(std::io::ErrorKind);

/// The result of an operation that fails with `Error`.
pub type Result<T> = core::result::Result<T, Error>;

/// An error of a count-shaped read or write.
#[derive(Debug, Clone, Copy)]
pub struct Error {
    repr: Repr,
}

#[derive(Debug, Clone, Copy)]
enum Repr {
    Os(i32),
    Simple(ErrorKind),
    Custom(Custom),
}

#[derive(Debug, Clone, Copy)]
struct Custom {
    kind: ErrorKind,
    error: &'static str,
}

/// What an error holds, as plain values.
pub enum ErrorView {
    /// A raw system error code.
    Os(i32),
    /// A kind and nothing else.
    Simple(ErrorKind),
    /// A kind with a message.
    Custom(ErrorKind, Seq<char>),
}

impl View for Error {
    type V = ErrorView;

    closed spec fn view(&self) -> ErrorView {
        match self.repr {
            Repr::Os(code) => ErrorView::Os(code),
            Repr::Simple(kind) => ErrorView::Simple(kind),
            Repr::Custom(c) => ErrorView::Custom(c.kind, c.error@),
        }
    }
}

impl Error {
    /// The error with the given kind and message.
    pub closed spec fn custom(kind: ErrorKind, error: &'static str) -> Error {
        Error { repr: Repr::Custom(Custom { kind, error }) }
    }

    /// The error's kind, where it has one: a raw system code has none.
    pub open spec fn kind_of(&self) -> Option<ErrorKind> {
        match self@ {
            ErrorView::Os(_) => None,
            ErrorView::Simple(kind) => Some(kind),
            ErrorView::Custom(kind, _) => Some(kind),
        }
    }

    /// Whether the error only says that the operation was interrupted and
    /// should be reissued.
    pub open spec fn is_interrupted(&self) -> bool {
        self.kind_of() == Some(ErrorKind::Interrupted)
    }

    /// An error of the given kind with a message.
    pub fn new(kind: ErrorKind, error: &'static str) -> (e: Error)
        ensures
            e == Error::custom(kind, error),
            e@ == ErrorView::Custom(kind, error@),
    {
        Self::_new(kind, error)
    }

    fn _new(kind: ErrorKind, error: &'static str) -> (e: Error)
        ensures
            e == Error::custom(kind, error),
            e@ == ErrorView::Custom(kind, error@),
    {
        Error { repr: Repr::Custom(Custom { kind, error }) }
    }

    /// An error of the given kind and nothing else.
    pub fn simple(kind: ErrorKind) -> (e: Error)
        ensures
            e@ == ErrorView::Simple(kind),
    {
        Error { repr: Repr::Simple(kind) }
    }

    /// An error from a raw system error code.
    pub fn from_raw_os_error(code: i32) -> (e: Error)
        ensures
            e@ == ErrorView::Os(code),
    {
        Error { repr: Repr::Os(code) }
    }

    /// The raw system error code, where the error was made from one.
    pub fn raw_os_error(&self) -> (code: Option<i32>)
        ensures
            code == match self@ {
                ErrorView::Os(c) => Some(c),
                _ => None,
            },
    {
        match self.repr {
            Repr::Os(i) => Some(i),
            Repr::Custom(..) => None,
            Repr::Simple(..) => None,
        }
    }

    /// The message, where the error has one.
    pub fn get_ref(&self) -> (message: Option<&'static str>)
        ensures
            match self@ {
                ErrorView::Custom(_, text) => message matches Some(m) && m@ == text,
                _ => message is None,
            },
    {
        match self.repr {
            Repr::Os(..) => None,
            Repr::Simple(..) => None,
            Repr::Custom(c) => Some(c.error),
        }
    }

    /// The message, where the error has one, to be replaced in place. The
    /// kind stays.
    pub fn get_mut(&mut self) -> (message: Option<&mut &'static str>)
        ensures
            match old(self)@ {
                ErrorView::Custom(kind, text) => {
                    &&& message matches Some(m)
                    &&& (*m)@ == text
                    &&& final(self)@ == ErrorView::Custom(kind, (*final(m))@)
                },
                _ => message is None && *final(self) == *old(self),
            },
    {
        match &mut self.repr {
            Repr::Os(..) => None,
            Repr::Simple(..) => None,
            Repr::Custom(c) => Some(&mut c.error),
        }
    }

    /// Gives up the error for its message, where it has one.
    pub fn into_inner(self) -> (message: Option<&'static str>)
        ensures
            match self@ {
                ErrorView::Custom(_, text) => message matches Some(m) && m@ == text,
                _ => message is None,
            },
    {
        match self.repr {
            Repr::Os(..) => None,
            Repr::Simple(..) => None,
            Repr::Custom(c) => Some(c.error),
        }
    }

    /// The error's kind. A raw system code has none to give.
    pub fn kind(&self) -> (kind: ErrorKind)
        requires
            !(self@ is Os),
        ensures
            Some(kind) == self.kind_of(),
    {
        match self.repr {
            Repr::Os(_code) => ErrorKind::Other,
            Repr::Custom(c) => c.kind,
            Repr::Simple(kind) => kind,
        }
    }

    /// Whether the error only says that the operation was interrupted and
    /// should be reissued. A raw system code does not say so.
    pub fn interrupted(&self) -> (b: bool)
        ensures
            b == self.is_interrupted(),
    {
        match self.repr {
            Repr::Os(_) => false,
            Repr::Custom(c) => matches!(c.kind, ErrorKind::Interrupted),
            Repr::Simple(kind) => matches!(kind, ErrorKind::Interrupted),
        }
    }

    /// The message of an error that has one.
    pub fn description(&self) -> (text: &'static str)
        requires
            self@ is Custom,
        ensures
            self@ == ErrorView::Custom(self.kind_of()->Some_0, text@),
    {
        match self.repr {
            Repr::Custom(c) => c.error,
            _ => "",
        }
    }
}

impl From<UnexpectedEndOfFile> for Error {
    fn from(_err: UnexpectedEndOfFile) -> (e: Self) {
        Error::new(ErrorKind::UnexpectedEof, "Unexpected EOF")
    }
}

impl FromSpecImpl<UnexpectedEndOfFile> for Error {
    open spec fn obeys_from_spec() -> bool {
        true
    }

    open spec fn from_spec(_err: UnexpectedEndOfFile) -> Self {
        Error::custom(ErrorKind::UnexpectedEof, "Unexpected EOF")
    }
}

impl From<InvalidUtf8> for Error {
    fn from(_err: InvalidUtf8) -> (e: Self) {
        Error::new(ErrorKind::InvalidData, "Data is invalid UTF-8")
    }
}

impl FromSpecImpl<InvalidUtf8> for Error {
    open spec fn obeys_from_spec() -> bool {
        true
    }

    open spec fn from_spec(_err: InvalidUtf8) -> Self {
        Error::custom(ErrorKind::InvalidData, "Data is invalid UTF-8")
    }
}

impl From<FormatterError> for Error {
    fn from(_err: FormatterError) -> (e: Self) {
        Error::new(ErrorKind::Other, "formatter error")
    }
}

impl FromSpecImpl<FormatterError> for Error {
    open spec fn obeys_from_spec() -> bool {
        true
    }

    open spec fn from_spec(_err: FormatterError) -> Self {
        Error::custom(ErrorKind::Other, "formatter error")
    }
}

/// An error with a kind and a message has that kind, whatever the message.
pub proof fn custom_has_its_kind(kind: ErrorKind, error: &'static str)
    ensures
        Error::custom(kind, error)@ == ErrorView::Custom(kind, error@),
        Error::custom(kind, error).kind_of() == Some(kind),
{
}

} // verus!
