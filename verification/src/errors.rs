//! The application's error values and their texts.
use vstd::prelude::*;

verus! {

/// What can go wrong in the election's operations. Each variant carries the
/// text of the underlying failure.
#[derive(Debug)]
pub enum AppError {
    /// Reading or writing a file failed.
    Io(String),
    /// `tfhe` refused an operation.
    Tfhe(String),
    /// A value could not be encoded to bytes.
    Encode(String),
    /// Bytes could not be decoded to a value.
    Decode(String),
    /// A name that is no candidate's.
    UnknownCandidate(String),
}

impl AppError {
    /// The error's text: a prefix that names the kind of failure, then the
    /// underlying text.
    pub open spec fn spec_text(&self) -> Seq<char> {
        match self {
            AppError::Io(m) => "io: "@ + m@,
            AppError::Tfhe(m) => "tfhe: "@ + m@,
            AppError::Encode(m) => "serialization (encode): "@ + m@,
            AppError::Decode(m) => "serialization (decode): "@ + m@,
            AppError::UnknownCandidate(m) => "unknown candidate: "@ + m@,
        }
    }

    /// The error's text, as it is shown to a user.
    pub fn text(&self) -> (r: String)
        ensures
            r@ == self.spec_text(),
    {
        let (prefix, inner) = match self {
            AppError::Io(m) => ("io: ", m),
            AppError::Tfhe(m) => ("tfhe: ", m),
            AppError::Encode(m) => ("serialization (encode): ", m),
            AppError::Decode(m) => ("serialization (decode): ", m),
            AppError::UnknownCandidate(m) => ("unknown candidate: ", m),
        };
        let mut r = String::from_str(prefix);
        r.append(inner.as_str());
        r
    }
}

} // verus!
