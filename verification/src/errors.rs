//! Error values of the store, the table configuration and the quote API.

use vstd::prelude::*;
use vstd::string::StringExecFns;

verus! {

/// Errors of backend store operations.
#[derive(Debug)]
pub enum SupabaseError {
    /// Error during authentication.
    AuthenticationError(String),
    /// Error during data insertion.
    InsertionError(String),
    /// Error during data update.
    UpdateError(String),
    /// Error during data deletion.
    DeletionError(String),
    /// Error during data fetching.
    FetchError(String),
}

/// Errors of table configuration handling.
#[derive(Debug)]
pub enum TableConfigError {
    /// Invalid configuration.
    InvalidConfiguration(String),
    /// Configuration file not found.
    FileNotFound(String),
    /// Error parsing the configuration.
    ParseError(String),
}

/// Errors of quote API interactions.
#[derive(Debug)]
pub enum XylexApiError {
    /// Network connectivity issues.
    NetworkError(String),
    /// Invalid symbol provided.
    InvalidSymbol(String),
    /// Unexpected error occurred.
    UnexpectedError(String),
    /// Authentication error due to environment settings.
    EnvAuthenticationError(String),
}

/// The text `SupabaseError::message` yields.
pub open spec fn supabase_error_text(e: SupabaseError) -> Seq<char> {
    match e {
        SupabaseError::AuthenticationError(m) => "Authentication Error: "@ + m@,
        SupabaseError::InsertionError(m) => "Insertion Error: "@ + m@,
        SupabaseError::UpdateError(m) => "Update Error: "@ + m@,
        SupabaseError::DeletionError(m) => "Deletion Error: "@ + m@,
        SupabaseError::FetchError(m) => "Fetch Error: "@ + m@,
    }
}

/// The text `TableConfigError::message` yields.
pub open spec fn table_config_error_text(e: TableConfigError) -> Seq<char> {
    match e {
        TableConfigError::InvalidConfiguration(m) => "Invalid Configuration: "@ + m@,
        TableConfigError::FileNotFound(m) => "File Not Found: "@ + m@,
        TableConfigError::ParseError(m) => "Parse Error: "@ + m@,
    }
}

/// The text `XylexApiError::message` yields.
pub open spec fn xylex_api_error_text(e: XylexApiError) -> Seq<char> {
    match e {
        XylexApiError::NetworkError(m) => "Network error: "@ + m@,
        XylexApiError::InvalidSymbol(m) => "Invalid symbol provided: "@ + m@,
        XylexApiError::UnexpectedError(m) => "An unexpected error occurred: "@ + m@,
        XylexApiError::EnvAuthenticationError(m) => "Environment-based authentication error: "@
            + m@,
    }
}

impl SupabaseError {
    /// A readable description of the error.
    pub fn message(&self) -> (r: String)
        ensures
            r@ == supabase_error_text(*self),
    {
        match self {
            SupabaseError::AuthenticationError(m) => String::from_str(
                "Authentication Error: ",
            ).concat(m.as_str()),
            SupabaseError::InsertionError(m) => String::from_str("Insertion Error: ").concat(
                m.as_str(),
            ),
            SupabaseError::UpdateError(m) => String::from_str("Update Error: ").concat(
                m.as_str(),
            ),
            SupabaseError::DeletionError(m) => String::from_str("Deletion Error: ").concat(
                m.as_str(),
            ),
            SupabaseError::FetchError(m) => String::from_str("Fetch Error: ").concat(m.as_str()),
        }
    }
}

impl TableConfigError {
    /// A readable description of the error.
    pub fn message(&self) -> (r: String)
        ensures
            r@ == table_config_error_text(*self),
    {
        match self {
            TableConfigError::InvalidConfiguration(m) => String::from_str(
                "Invalid Configuration: ",
            ).concat(m.as_str()),
            TableConfigError::FileNotFound(m) => String::from_str("File Not Found: ").concat(
                m.as_str(),
            ),
            TableConfigError::ParseError(m) => String::from_str("Parse Error: ").concat(
                m.as_str(),
            ),
        }
    }
}

impl XylexApiError {
    /// A readable description of the error.
    pub fn message(&self) -> (r: String)
        ensures
            r@ == xylex_api_error_text(*self),
    {
        match self {
            XylexApiError::NetworkError(m) => String::from_str("Network error: ").concat(
                m.as_str(),
            ),
            XylexApiError::InvalidSymbol(m) => String::from_str(
                "Invalid symbol provided: ",
            ).concat(m.as_str()),
            XylexApiError::UnexpectedError(m) => String::from_str(
                "An unexpected error occurred: ",
            ).concat(m.as_str()),
            XylexApiError::EnvAuthenticationError(m) => String::from_str(
                "Environment-based authentication error: ",
            ).concat(m.as_str()),
        }
    }
}

} // verus!
