//! Client-side core of an S3-style object storage service: request
//! canonicalization and signing, outcome interpretation, and the streaming
//! decoder of bucket listings.
pub mod canonical;
pub mod error;
pub mod listing;
pub mod object;
pub mod outcome;
pub mod request;
pub mod sign;
pub mod url;
pub mod xml;
