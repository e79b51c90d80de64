//! The error taxonomy and what of it a client gets to see.

use vstd::prelude::*;

verus! {

/// Why a call to a provider produced no usable response.
#[derive(Clone, Copy, Debug, PartialEq, Eq, Structural)]
pub enum FetchFailure {
    /// The call did not finish within its timeout.
    Timeout,
    /// The connection failed, or the exchange broke off.
    Transport,
    /// A body arrived that is not a block-number response.
    Decode,
}

/// Everything that can go wrong, with the context that the logs need.
#[derive(Debug, PartialEq, Eq)]
pub enum AppError {
    /// No response could be had from the provider at `url`.
    FetchError { url: String, cause: FetchFailure },
    /// The provider answered, but `raw` is not a block number.
    ParseError { raw: String },
    /// The setting named `variable` is required and was not supplied.
    ConfigError { variable: String },
}

/// The mathematical content of an [`AppError`].
pub enum AppErrorView {
    FetchError { url: Seq<char>, cause: FetchFailure },
    ParseError { raw: Seq<char> },
    ConfigError { variable: Seq<char> },
}

impl View for AppError {
    type V = AppErrorView;

    open spec fn view(&self) -> AppErrorView {
        match self {
            AppError::FetchError { url, cause } => AppErrorView::FetchError {
                url: url@,
                cause: *cause,
            },
            AppError::ParseError { raw } => AppErrorView::ParseError { raw: raw@ },
            AppError::ConfigError { variable } => AppErrorView::ConfigError {
                variable: variable@,
            },
        }
    }
}

/// The status of a response that carries a digest.
pub const STATUS_OK: u16 = 200;

/// The status of a response that carries an error.
pub const STATUS_INTERNAL_SERVER_ERROR: u16 = 500;

impl AppErrorView {
    /// The text that a client is shown. It is chosen by the kind of error
    /// alone: neither a URL nor a raw value ever enters it.
    pub open spec fn client_message(self) -> Seq<char> {
        match self {
            AppErrorView::FetchError { .. } => "Could not fetch block number"@,
            AppErrorView::ParseError { .. } => "Could not parse block number"@,
            AppErrorView::ConfigError { .. } => "Missing required configuration"@,
        }
    }
}

impl AppError {
    /// The generic message for clients.
    pub fn message(&self) -> (text: &'static str)
        ensures
            text@ == self@.client_message(),
    {
        match self {
            AppError::FetchError { .. } => "Could not fetch block number",
            AppError::ParseError { .. } => "Could not parse block number",
            AppError::ConfigError { .. } => "Missing required configuration",
        }
    }

    /// The HTTP status under which the error is reported.
    pub fn status_code(&self) -> (status: u16)
        ensures
            status == STATUS_INTERNAL_SERVER_ERROR,
    {
        STATUS_INTERNAL_SERVER_ERROR
    }

}

impl Clone for AppError {
    fn clone(&self) -> (copy: AppError)
        ensures
            copy@ == self@,
    {
        match self {
            AppError::FetchError { url, cause } => AppError::FetchError {
                url: url.clone(),
                cause: *cause,
            },
            AppError::ParseError { raw } => AppError::ParseError { raw: raw.clone() },
            AppError::ConfigError { variable } => AppError::ConfigError {
                variable: variable.clone(),
            },
        }
    }
}

} // verus!
