//! The errors that a call can answer with.
use vstd::prelude::*;

use crate::decimal::uint128_to_string;

verus! {

/// Why a call was refused or could not be carried out.
#[derive(Debug, PartialEq)]
pub enum StdError {
    /// No more specific kind applies.
    GenericErr { msg: String },
    /// A text is no valid Base64.
    InvalidBase64 { msg: String },
    /// Some bytes are no valid UTF-8.
    InvalidUtf8 { msg: String },
    /// Something that was looked up is not there.
    NotFound { kind: String },
    /// A record could not be read as the type it should have.
    ParseErr { target: String, msg: String },
    /// A value could not be written.
    SerializeErr { source: String, msg: String },
    /// The sender may not do this.
    Unauthorized {},
    /// More was to be taken away than there is. Both numbers are in decimal.
    Underflow { minuend: String, subtrahend: String },
}

pub type StdResult<T> = Result<T, StdError>;

/// What a [`StdError`] says.
#[verifier::ext_equal]
pub enum ErrorView {
    GenericErr { msg: Seq<char> },
    InvalidBase64 { msg: Seq<char> },
    InvalidUtf8 { msg: Seq<char> },
    NotFound { kind: Seq<char> },
    ParseErr { target: Seq<char>, msg: Seq<char> },
    SerializeErr { source: Seq<char>, msg: Seq<char> },
    Unauthorized,
    Underflow { minuend: Seq<char>, subtrahend: Seq<char> },
}

impl View for StdError {
    type V = ErrorView;

    open spec fn view(&self) -> ErrorView {
        match *self {
            StdError::GenericErr { msg } => ErrorView::GenericErr { msg: msg@ },
            StdError::InvalidBase64 { msg } => ErrorView::InvalidBase64 { msg: msg@ },
            StdError::InvalidUtf8 { msg } => ErrorView::InvalidUtf8 { msg: msg@ },
            StdError::NotFound { kind } => ErrorView::NotFound { kind: kind@ },
            StdError::ParseErr { target, msg } => ErrorView::ParseErr { target: target@, msg: msg@ },
            StdError::SerializeErr { source, msg } => ErrorView::SerializeErr {
                source: source@,
                msg: msg@,
            },
            StdError::Unauthorized {  } => ErrorView::Unauthorized,
            StdError::Underflow { minuend, subtrahend } => ErrorView::Underflow {
                minuend: minuend@,
                subtrahend: subtrahend@,
            },
        }
    }
}

/// The view of a result: that of the value, or that of the error.
pub open spec fn result_view<T: View>(result: StdResult<T>) -> Result<T::V, ErrorView> {
    match result {
        Ok(value) => Ok(value@),
        Err(error) => Err(error@),
    }
}

/// The error of taking `subtrahend` away from the smaller `minuend`.
pub open spec fn underflow_view(minuend: nat, subtrahend: nat) -> ErrorView {
    ErrorView::Underflow {
        minuend: crate::decimal::decimal(minuend),
        subtrahend: crate::decimal::decimal(subtrahend),
    }
}

impl StdError {
    /// An error that is described by `msg` alone.
    pub fn generic_err(msg: &str) -> (error: StdError)
        ensures
            error@ == (ErrorView::GenericErr { msg: msg@ }),
    {
        StdError::GenericErr { msg: msg.to_string() }
    }

    /// The error of not finding a `kind`.
    pub fn not_found(kind: &str) -> (error: StdError)
        ensures
            error@ == (ErrorView::NotFound { kind: kind@ }),
    {
        StdError::NotFound { kind: kind.to_string() }
    }

    /// The error of a sender who may not do this.
    pub fn unauthorized() -> (error: StdError)
        ensures
            error@ == ErrorView::Unauthorized,
    {
        StdError::Unauthorized {  }
    }

    /// The error of taking `subtrahend` away from the smaller `minuend`.
    pub fn underflow(minuend: u128, subtrahend: u128) -> (error: StdError)
        ensures
            error@ == underflow_view(minuend as nat, subtrahend as nat),
    {
        StdError::Underflow {
            minuend: uint128_to_string(minuend),
            subtrahend: uint128_to_string(subtrahend),
        }
    }
}

impl Clone for StdError {
    fn clone(&self) -> (copy: StdError)
        ensures
            copy@ == self@,
    {
        match self {
            StdError::GenericErr { msg } => StdError::GenericErr { msg: msg.clone() },
            StdError::InvalidBase64 { msg } => StdError::InvalidBase64 { msg: msg.clone() },
            StdError::InvalidUtf8 { msg } => StdError::InvalidUtf8 { msg: msg.clone() },
            StdError::NotFound { kind } => StdError::NotFound { kind: kind.clone() },
            StdError::ParseErr { target, msg } => StdError::ParseErr {
                target: target.clone(),
                msg: msg.clone(),
            },
            StdError::SerializeErr { source, msg } => StdError::SerializeErr {
                source: source.clone(),
                msg: msg.clone(),
            },
            StdError::Unauthorized {  } => StdError::Unauthorized {  },
            StdError::Underflow { minuend, subtrahend } => StdError::Underflow {
                minuend: minuend.clone(),
                subtrahend: subtrahend.clone(),
            },
        }
    }
}

} // verus!
