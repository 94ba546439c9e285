use vstd::prelude::*;
use crate::decimal::IntErrorKind;
use crate::services::RateLimit;

verus! {

/// What went wrong, by where it came from. Errors of the network, of JSON and of
/// the browser keep their message.
#[derive(Debug)]
pub enum ErrorKind {
    Text(String),
    Reqwest(String),
    SerdeJson(String),
    ToStr,
    ParseInt(IntErrorKind),
    JsValue(String),
}

/// An error, with the articles whose fetch it broke, and the rate limit that
/// came with it.
#[derive(Debug)]
pub enum Error {
    Generic(ErrorKind),
    ArticleFetch { err: ErrorKind, article_ids: Vec<String> },
    RatelimitedArticleFetch { err: ErrorKind, article_ids: Vec<String>, ratelimit: RateLimit },
}

impl Error {
    /// What went wrong, whatever the variant.
    pub fn kind(&self) -> (r: &ErrorKind)
        ensures
            *r == match *self {
                Error::Generic(k) => k,
                Error::ArticleFetch { err, .. } => err,
                Error::RatelimitedArticleFetch { err, .. } => err,
            },
    {
        match self {
            Error::Generic(err) => err,
            Error::ArticleFetch { err, .. } => err,
            Error::RatelimitedArticleFetch { err, .. } => err,
        }
    }

    /// An error that only carries a message.
    pub fn text(message: String) -> (r: Error)
        ensures
            r matches Error::Generic(ErrorKind::Text(m)) && m@ == message@,
    {
        Error::Generic(ErrorKind::Text(message))
    }
}

}
