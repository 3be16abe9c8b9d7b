//! The ways in which an operation on the modem fails.

use vstd::prelude::*;

verus! {

/// Why an operation failed. An operation fails with one error and is not
/// tried again.
#[derive(Debug, Clone, PartialEq, Eq)]
pub enum Error {
    /// The transport could not be opened.
    TransportUnavailable,
    /// The command could not be written to the transport.
    TransportWriteError,
    /// The transport failed while a response was awaited.
    TransportReadError,
    /// The modem ended its response with an error line, which is held here
    /// as it was received, without the white space around it.
    CommandRejected(Vec<u8>),
    /// The response to a query had none of the known forms.
    UnrecognisedValue,
}

/// An `Error` as a mathematical value.
pub enum ErrorView {
    TransportUnavailable,
    TransportWriteError,
    TransportReadError,
    CommandRejected(Seq<u8>),
    UnrecognisedValue,
}

impl View for Error {
    type V = ErrorView;

    open spec fn view(&self) -> ErrorView {
        match *self {
            Error::TransportUnavailable => ErrorView::TransportUnavailable,
            Error::TransportWriteError => ErrorView::TransportWriteError,
            Error::TransportReadError => ErrorView::TransportReadError,
            Error::CommandRejected(line) => ErrorView::CommandRejected(line@),
            Error::UnrecognisedValue => ErrorView::UnrecognisedValue,
        }
    }
}

/// A result whose error is taken as a mathematical value.
pub open spec fn result_view<T>(r: Result<T, Error>) -> Result<T, ErrorView> {
    match r {
        Ok(t) => Ok(t),
        Err(e) => Err(e@),
    }
}

} // verus!
