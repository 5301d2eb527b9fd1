//! The generator's error type.
use vstd::prelude::*;

verus! {

/// Why the generator refused an API description.
///
/// Reading a file happens outside this library, so its failures are not
/// among these.
#[derive(Debug)]
pub enum Error {
    /// The generated code could not be put together.
    BadCodegen(String),
    /// A `$ref` that does not lead to a known definition.
    BadReference(String),
    /// The description breaks one of the generator's rules.
    Validation(String),
    /// The description uses a feature the generator does not handle
    /// (a header parameter, a string pattern, a security requirement, ...).
    /// The command-line tool stops on it.
    Unsupported(String),
    /// The text is not a YAML OpenAPI description.
    Yaml(String),
}

/// The view of an error: its kind and message.
pub enum ErrorV {
    BadCodegen(Seq<char>),
    BadReference(Seq<char>),
    Validation(Seq<char>),
    Unsupported(Seq<char>),
    Yaml(Seq<char>),
}

impl View for Error {
    type V = ErrorV;

    open spec fn view(&self) -> ErrorV {
        match self {
            Error::BadCodegen(m) => ErrorV::BadCodegen(m@),
            Error::BadReference(m) => ErrorV::BadReference(m@),
            Error::Validation(m) => ErrorV::Validation(m@),
            Error::Unsupported(m) => ErrorV::Unsupported(m@),
            Error::Yaml(m) => ErrorV::Yaml(m@),
        }
    }
}

/// The three pieces, one after the other.
pub fn concat3(a: &str, b: &str, c: &str) -> (r: String)
    ensures
        r@ == a@ + b@ + c@,
{
    let mut r = String::from_str(a);
    r.append(b);
    r.append(c);
    r
}

/// A `Validation` error whose message is `a`, `b` and `c` joined.
pub fn invalid(a: &str, b: &str, c: &str) -> (e: Error)
    ensures
        e matches Error::Validation(m) && m@ == a@ + b@ + c@,
{
    Error::Validation(concat3(a, b, c))
}

/// An `Unsupported` error with the message `a`.
pub fn unsupported_msg(a: &str) -> (e: Error)
    ensures
        e@ == ErrorV::Unsupported(a@),
{
    Error::Unsupported(String::from_str(a))
}

/// An `Unsupported` error with the given message.
pub fn unsupported(a: &str, b: &str, c: &str) -> (e: Error)
    ensures
        e matches Error::Unsupported(m) && m@ == a@ + b@ + c@,
{
    Error::Unsupported(concat3(a, b, c))
}

} // verus!
