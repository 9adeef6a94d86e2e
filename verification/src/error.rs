//! Failures that the provider reports to the plan engine.
use vstd::prelude::*;

verus! {

/// A failure, with the message that the engine shows.
#[derive(Debug, PartialEq, Eq)]
pub enum ProviderError {
    /// The live state cannot be fetched.
    ConnectionFailed(String),
    /// The desired state does not have the expected shape.
    DesiredStateParse(String),
    /// The live state does not have the expected shape.
    LiveStateParse(String),
    /// A required configuration field is absent.
    MissingConfig { field: String },
    /// A required configuration field is left unmanaged.
    UnmanagedConfig { field: String },
    /// A change cannot be planned or carried out.
    OperationFailed(String),
}

/// What a failure says.
pub enum ErrorView {
    ConnectionFailed(Seq<char>),
    DesiredStateParse(Seq<char>),
    LiveStateParse(Seq<char>),
    MissingConfig { field: Seq<char> },
    UnmanagedConfig { field: Seq<char> },
    OperationFailed(Seq<char>),
}

impl View for ProviderError {
    type V = ErrorView;

    open spec fn view(&self) -> ErrorView {
        match self {
            ProviderError::ConnectionFailed(m) => ErrorView::ConnectionFailed(m@),
            ProviderError::DesiredStateParse(m) => ErrorView::DesiredStateParse(m@),
            ProviderError::LiveStateParse(m) => ErrorView::LiveStateParse(m@),
            ProviderError::MissingConfig { field } => ErrorView::MissingConfig { field: field@ },
            ProviderError::UnmanagedConfig { field } => ErrorView::UnmanagedConfig { field: field@ },
            ProviderError::OperationFailed(m) => ErrorView::OperationFailed(m@),
        }
    }
}

} // verus!
