//! Success values of the store and the quote API.

use vstd::prelude::*;
use vstd::string::StringExecFns;

verus! {

/// Success outcomes of backend store operations.
#[derive(Debug)]
pub enum SupabaseSuccess {
    /// Successful authentication.
    AuthenticationSuccess,
    /// Successful data insertion.
    InsertionSuccess,
    /// Successful data update.
    UpdateSuccess,
    /// Successful data deletion.
    DeletionSuccess,
    /// Successful data fetch.
    FetchSuccess,
}

/// Success outcomes of quote API operations.
#[derive(Debug)]
pub enum XylexApiSuccess {
    /// Successful network operation.
    NetworkSuccess,
    /// Valid symbol check.
    ValidSymbol,
    /// Successful operation completion.
    OperationSuccessful,
    /// Successful environment-based authentication.
    EnvAuthenticationSuccess,
}

/// The text `SupabaseSuccess::message` yields.
pub open spec fn supabase_success_text(s: SupabaseSuccess) -> Seq<char> {
    match s {
        SupabaseSuccess::AuthenticationSuccess => "Authentication succeeded."@,
        SupabaseSuccess::InsertionSuccess => "Insertion succeeded."@,
        SupabaseSuccess::UpdateSuccess => "Update succeeded."@,
        SupabaseSuccess::DeletionSuccess => "Deletion succeeded."@,
        SupabaseSuccess::FetchSuccess => "Fetch succeeded."@,
    }
}

/// The text `XylexApiSuccess::message` yields.
pub open spec fn xylex_api_success_text(s: XylexApiSuccess) -> Seq<char> {
    match s {
        XylexApiSuccess::NetworkSuccess => "Network operation successful."@,
        XylexApiSuccess::ValidSymbol => "Symbol is valid."@,
        XylexApiSuccess::OperationSuccessful => "Operation completed successfully."@,
        XylexApiSuccess::EnvAuthenticationSuccess => "Environment-based authentication succeeded."@,
    }
}

impl SupabaseSuccess {
    /// A readable description of the outcome.
    pub fn message(&self) -> (r: String)
        ensures
            r@ == supabase_success_text(*self),
    {
        match self {
            SupabaseSuccess::AuthenticationSuccess => String::from_str(
                "Authentication succeeded.",
            ),
            SupabaseSuccess::InsertionSuccess => String::from_str("Insertion succeeded."),
            SupabaseSuccess::UpdateSuccess => String::from_str("Update succeeded."),
            SupabaseSuccess::DeletionSuccess => String::from_str("Deletion succeeded."),
            SupabaseSuccess::FetchSuccess => String::from_str("Fetch succeeded."),
        }
    }
}

impl XylexApiSuccess {
    /// A readable description of the outcome.
    pub fn message(&self) -> (r: String)
        ensures
            r@ == xylex_api_success_text(*self),
    {
        match self {
            XylexApiSuccess::NetworkSuccess => String::from_str("Network operation successful."),
            XylexApiSuccess::ValidSymbol => String::from_str("Symbol is valid."),
            XylexApiSuccess::OperationSuccessful => String::from_str(
                "Operation completed successfully.",
            ),
            XylexApiSuccess::EnvAuthenticationSuccess => String::from_str(
                "Environment-based authentication succeeded.",
            ),
        }
    }
}

} // verus!
