use vstd::prelude::*;

verus! {

/// Everything that can go wrong while reading a stream in this format.
///
/// `Io` stands for a failure of an underlying byte source (an
/// in-memory source never fails, outside callers may), `Yaml` for a
/// header payload that the structured-document decoder rejects,
/// `InvalidSignature` for a framing line that is not the expected
/// token, and `MalformedHeaderLine` for a commented line whose second
/// byte is neither a second comment marker nor a single space.
#[derive(Clone, Copy, Debug, PartialEq, Eq, Structural)]
pub enum Error {
    Io,
    Yaml,
    InvalidSignature,
    MalformedHeaderLine,
}

impl Error {
    /// A short description, in place of a `Display` rendering.
    pub fn message(&self) -> (r: &'static str)
    {
        match self {
            Error::Io => "io error",
            Error::Yaml => "yaml error",
            Error::InvalidSignature => "invalid signature",
            Error::MalformedHeaderLine => "malformed header line",
        }
    }
}

} // verus!
