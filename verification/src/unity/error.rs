use vstd::prelude::*;

verus! {

/// An expected and a received type name.
#[derive(Debug, Clone)]
pub struct UnityMismatch {
    pub expected: String,
    pub received: String,
}

/// Errors while reading Unity data.
#[derive(Debug, Clone)]
pub enum UnityError {
    /// The data ended before a value was complete.
    UnexpectedEof,
    /// The data is not well-formed.
    InvalidData(&'static str),
    /// A type tree node has another type than the one being read.
    Mismatch(UnityMismatch),
    /// The data uses a feature that is not supported.
    Unsupported(&'static str),
}

/// An error as a value: a mismatch's type names as characters.
pub enum ErrorView {
    UnexpectedEof,
    InvalidData(&'static str),
    Mismatch(Seq<char>, Seq<char>),
    Unsupported(&'static str),
}

impl View for UnityError {
    type V = ErrorView;

    open spec fn view(&self) -> ErrorView {
        match self {
            UnityError::UnexpectedEof => ErrorView::UnexpectedEof,
            UnityError::InvalidData(s) => ErrorView::InvalidData(*s),
            UnityError::Mismatch(m) => ErrorView::Mismatch(m.expected@, m.received@),
            UnityError::Unsupported(s) => ErrorView::Unsupported(*s),
        }
    }
}

} // verus!
