//! The quote API client.
//!
//! One outbound call per symbol: the caller sends a GET to `request_url` and
//! hands the response body to `parse_price_response`, which decodes the JSON
//! and reads the `price` member — a string writing a decimal price — into a
//! fixed-point price.

use vstd::prelude::*;
use crate::errors::XylexApiError;
use crate::price::{parse_price, parse_price_spec};
use vstd::string::StringExecFns;

verus! {

/// Quote API authentication: an API key and a base endpoint URL.
pub struct XylexApi {
    pub key: String,
    pub endpoint: String,
}

/// Whether the body reads as a JSON document.
pub uninterp spec fn json_decodes(body: Seq<char>) -> bool;

/// The `price` member of the body read as a JSON document, where the body
/// is JSON and that member holds a string; `None` otherwise.
pub uninterp spec fn json_price_member(body: Seq<char>) -> Option<Seq<char>>;

/// Relies on serde_json::from_str, Value::get and Value::as_str: whether a
/// body decodes as JSON, and its `price` member where that member holds a
/// string, both depend on the body's text alone. The outer `Option` is the
/// decode, the inner the member.
#[verifier::external_body]
fn read_price_member(body: &str) -> (r: Option<Option<String>>)
    ensures
        r is Some <==> json_decodes(body@),
        match r {
            Some(Some(t)) => json_price_member(body@) == Some(t@),
            Some(None) => json_price_member(body@) is None,
            None => json_price_member(body@) is None,
        },
{
    match serde_json::from_str::<serde_json::Value>(body) {
        Ok(v) => match v.get("price").and_then(|m| m.as_str()) {
            Some(s) => Some(Some(s.to_string())),
            None => Some(None),
        },
        Err(_) => None,
    }
}

impl XylexApi {
    /// Builds a client from an API key and an endpoint URL.
    pub fn new(key: String, endpoint: String) -> (a: XylexApi)
        ensures
            a.key@ == key@,
            a.endpoint@ == endpoint@,
    {
        XylexApi { key, endpoint }
    }

    /// The URL that asks the quote API for a symbol's current price.
    pub fn request_url(&self, symbol: &str) -> (r: String)
        ensures
            r@ == self.endpoint@ + "?symbol="@ + symbol@ + "&api_key="@ + self.key@,
    {
        self.endpoint.clone().concat("?symbol=").concat(symbol).concat("&api_key=").concat(
            self.key.as_str(),
        )
    }

    /// Reads the price out of a quote API response body: the body must be
    /// JSON whose `price` member is a string writing a price. Exactly one
    /// outcome per body — the written value on success, and each way the
    /// body can fall short its own error.
    pub fn parse_price_response(&self, body: &str) -> (r: Result<i64, XylexApiError>)
        ensures
            match json_price_member(body@) {
                Some(t) => match parse_price_spec(t) {
                    Some(v) => r matches Ok(p) && p as int == v,
                    None => r matches Err(e) && (e matches XylexApiError::UnexpectedError(m)
                        && m@ == "Failed to parse price"@),
                },
                None => if json_decodes(body@) {
                    r matches Err(e) && (e matches XylexApiError::InvalidSymbol(m) && m@
                        == "Price field missing or not a string"@)
                } else {
                    r matches Err(e) && (e matches XylexApiError::UnexpectedError(m) && m@
                        == "Failed to parse JSON"@)
                },
            },
    {
        match read_price_member(body) {
            Some(Some(text)) => match parse_price(text.as_str()) {
                Some(p) => Ok(p),
                None => Err(
                    XylexApiError::UnexpectedError(String::from_str("Failed to parse price")),
                ),
            },
            Some(None) => Err(
                XylexApiError::InvalidSymbol(
                    String::from_str("Price field missing or not a string"),
                ),
            ),
            None => Err(
                XylexApiError::UnexpectedError(String::from_str("Failed to parse JSON")),
            ),
        }
    }
}

} // verus!
