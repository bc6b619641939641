//! Stable, kebab-case identifiers for the registered backends.

use vstd::prelude::*;
use crate::text;

verus! {

/// A backend identifier; equality is by characters.
#[derive(Clone, Debug, PartialEq, Eq)]
pub struct BackendId {
    pub id: String,
}

impl BackendId {
    /// The characters of the identifier.
    pub open spec fn chars(&self) -> Seq<char> {
        self.id@
    }

    pub fn from_str(s: &str) -> (r: BackendId)
        ensures
            r.chars() == s@,
    {
        BackendId { id: s.to_owned() }
    }

    pub fn as_str(&self) -> (r: &str)
        ensures
            r@ == self.chars(),
    {
        self.id.as_str()
    }

    /// Character-wise equality with another identifier.
    pub fn same_as(&self, other: &BackendId) -> (r: bool)
        ensures
            r == (self.chars() == other.chars()),
    {
        text::str_eq(self.id.as_str(), other.id.as_str())
    }

    /// Character-wise equality with a plain string.
    pub fn is_named(&self, name: &str) -> (r: bool)
        ensures
            r == (self.chars() == name@),
    {
        text::str_eq(self.id.as_str(), name)
    }
}

} // verus!
