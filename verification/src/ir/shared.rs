use vstd::prelude::*;

verus! {

/// Represents an identifier in the LLVM system
#[derive(Debug, Clone)]
pub struct Identifier(pub String);

impl Identifier {
    /// Builds an identifier from a name.
    pub fn from_str(name: &str) -> (r: Self)
        ensures
            r.0@ == name@,
    {
        Identifier(name.to_owned())
    }

    /// The name as a string slice.
    pub fn as_str(&self) -> (r: &str)
        ensures
            r@ == self.0@,
    {
        self.0.as_str()
    }

    /// Compares two identifiers by their text.
    pub fn same_name(&self, other: &Identifier) -> (r: bool)
        ensures
            r == (self.0@ == other.0@),
    {
        self.0 == other.0
    }

    /// A copy of the identifier.
    pub fn duplicate(&self) -> (r: Self)
        ensures
            r.0@ == self.0@,
    {
        Identifier(self.0.clone())
    }
}

} // verus!
