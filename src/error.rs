//! Errors of the price index service.
use vstd::prelude::*;

verus! {

/// A failure to get a price from an exchange.
#[derive(Clone, Debug, PartialEq, Eq)]
pub enum PriceIndexError {
    /// The exchange answered, but reported a failure or sent no book.
    ExchangeError(String),
    /// The WebSocket connection could not be set up.
    WebSocketError(String),
    /// The HTTP request failed.
    HttpError(String),
    /// The reply could not be decoded.
    JsonError(String),
    /// The book was fetched but yields no valid mid-price.
    InvalidPriceData(String),
}

impl PriceIndexError {
    /// The message carried by the error, whatever its kind.
    pub fn message(&self) -> (r: &String)
        ensures
            r == match self {
                PriceIndexError::ExchangeError(m) => m,
                PriceIndexError::WebSocketError(m) => m,
                PriceIndexError::HttpError(m) => m,
                PriceIndexError::JsonError(m) => m,
                PriceIndexError::InvalidPriceData(m) => m,
            },
    {
        match self {
            PriceIndexError::ExchangeError(m) => m,
            PriceIndexError::WebSocketError(m) => m,
            PriceIndexError::HttpError(m) => m,
            PriceIndexError::JsonError(m) => m,
            PriceIndexError::InvalidPriceData(m) => m,
        }
    }
}

} // verus!
