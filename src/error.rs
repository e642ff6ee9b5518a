//! The error type of the library and the outside types that it carries.

use vstd::prelude::*;

use crate::frame::FormatError;

verus! {

/// `std::io::Error`, carried through unopened.
#[verifier::external_type_specification]
#[verifier::external_body]
pub struct ExIoError(std::io::Error);

/// `apple_xar::Error`, carried through unopened.
#[verifier::external_type_specification]
#[verifier::external_body]
pub struct ExXarError(apple_xar::Error);

/// Everything that can go wrong while unpacking an archive.
#[derive(Debug)]
pub enum UnxipError {
    /// Reading the source, or decompressing a chunk, failed.
    IoError(std::io::Error),
    /// The outer XAR container could not be read.
    XarError(apple_xar::Error),
    /// The PBZX stream is malformed.
    Format(FormatError),
    /// Any other failure, described in words.
    Misc(String),
}

} // verus!
