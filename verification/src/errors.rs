use vstd::prelude::*;

verus! {

/// The failure conditions the pipeline reports to its callers, as distinct,
/// user-displayable variants rather than bare strings.
#[derive(Debug, Clone, PartialEq, Eq)]
pub enum Error {
    /// A file could not be read or written.
    Io(String),
    /// The decoder or encoder rejected the image bytes; carries its message.
    Image(String),
    /// No source image has been chosen yet.
    NoImageSelected,
    /// A processing stage failed; carries a description.
    Processing(String),
    /// A request held a value the pipeline cannot accept.
    InvalidInput(String),
}

impl Error {
    /// The text `message` returns for each variant.
    pub open spec fn spec_message(&self) -> Seq<char> {
        match self {
            Error::Io(s) => "I/O error: "@ + s@,
            Error::Image(s) => "Image error: "@ + s@,
            Error::NoImageSelected => "No image selected"@,
            Error::Processing(s) => "Image processing error: "@ + s@,
            Error::InvalidInput(s) => "Invalid input: "@ + s@,
        }
    }

    /// A user-displayable description of the failure.
    pub fn message(&self) -> (r: String)
        ensures
            r@ == self.spec_message(),
    {
        match self {
            Error::Io(s) => {
                let mut m = String::from_str("I/O error: ");
                m.append(s.as_str());
                m
            },
            Error::Image(s) => {
                let mut m = String::from_str("Image error: ");
                m.append(s.as_str());
                m
            },
            Error::NoImageSelected => String::from_str("No image selected"),
            Error::Processing(s) => {
                let mut m = String::from_str("Image processing error: ");
                m.append(s.as_str());
                m
            },
            Error::InvalidInput(s) => {
                let mut m = String::from_str("Invalid input: ");
                m.append(s.as_str());
                m
            },
        }
    }
}

} // verus!
