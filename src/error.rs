use vstd::prelude::*;

verus! {

/// Declares std's I/O error so that an [`Error`] can carry one.
#[verifier::external_type_specification]
#[verifier::external_body]
pub struct ExIoError(std::io::Error);

/// What can go wrong while decoding or encoding an image.
#[derive(Debug)]
pub enum Error {
    /// The data is not in this format: its magic tag does not match.
    FormatError(String),
    /// The pixel buffer handed to the encoder is shorter than the declared
    /// dimensions require.
    NotEnoughData,
    /// The input ended before a fixed-size part (the header, a row or the
    /// whole payload) was complete.
    TruncatedInput,
    /// The underlying stream failed.
    IoError(std::io::Error),
    /// A row past the end of the image was requested.
    ImageEnd,
}

impl Error {
    /// A short name for the kind of failure.
    pub fn description(&self) -> (r: &'static str)
        ensures
            r@ == match self {
                Error::FormatError(_) => "Format error"@,
                Error::NotEnoughData => "Not enough data"@,
                Error::TruncatedInput => "Truncated input"@,
                Error::IoError(_) => "IO error"@,
                Error::ImageEnd => "Image end"@,
            },
    {
        match self {
            Error::FormatError(_) => "Format error",
            Error::NotEnoughData => "Not enough data",
            Error::TruncatedInput => "Truncated input",
            Error::IoError(_) => "IO error",
            Error::ImageEnd => "Image end",
        }
    }
}

impl From<std::io::Error> for Error {
    fn from(err: std::io::Error) -> (r: Error)
        ensures
            r == Error::IoError(err),
    {
        Error::IoError(err)
    }
}

impl vstd::std_specs::convert::FromSpecImpl<std::io::Error> for Error {
    open spec fn obeys_from_spec() -> bool {
        true
    }

    open spec fn from_spec(err: std::io::Error) -> Error {
        Error::IoError(err)
    }
}

} // verus!
