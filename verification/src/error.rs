//! The errors of generation.
use vstd::prelude::*;
use vstd::string::StringExecFns;

verus! {

/// Why nothing could be generated.
#[derive(Clone, Copy, Debug, PartialEq, Eq, Structural)]
pub enum ErrorKind {
    /// A method is declared at a version that is not above an earlier
    /// declaration of the same method.
    VersionOrder,
    /// The name of a method is no identifier.
    MethodName,
    /// The name of an argument is no identifier, or is a name that the
    /// generator introduces itself.
    ArgumentName,
    /// The name of the trait is no identifier.
    TraitName,
}

/// An error of generation: what is wrong, and where in the source.
#[derive(Clone, Copy, Debug)]
pub struct GenerationError {
    pub kind: ErrorKind,
    /// The place of the declaration that the error is about.
    pub span: proc_macro2::Span,
}

/// The message of each kind of error.
pub open spec fn message_of(kind: ErrorKind) -> Seq<char> {
    match kind {
        ErrorKind::VersionOrder => "Versions of a method must be declared in rising order"@,
        ErrorKind::MethodName => "The name of the method is not a plain identifier"@,
        ErrorKind::ArgumentName =>
            "The name of an argument is not a plain identifier, or is reserved"@,
        ErrorKind::TraitName => "The name of the trait is not a plain identifier"@,
    }
}

impl GenerationError {
    /// The message to report at the error's place.
    pub fn message(&self) -> (text: String)
        ensures
            text@ == message_of(self.kind),
    {
        match self.kind {
            ErrorKind::VersionOrder => String::from_str(
                "Versions of a method must be declared in rising order",
            ),
            ErrorKind::MethodName => String::from_str(
                "The name of the method is not a plain identifier",
            ),
            ErrorKind::ArgumentName => String::from_str(
                "The name of an argument is not a plain identifier, or is reserved",
            ),
            ErrorKind::TraitName => String::from_str(
                "The name of the trait is not a plain identifier",
            ),
        }
    }
}

} // verus!
