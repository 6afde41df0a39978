//! The host side that capsules see, and the records that list them.
use vstd::prelude::*;

verus! {

/// The state that the host keeps for one capsule: the services offered to it
/// keep their data here.
pub struct ArielOSHost {}

impl Default for ArielOSHost {
    fn default() -> (r: Self) {
        ArielOSHost {}
    }
}

/// A listed resource: the name under which a capsule is registered.
pub struct StringRef<'a>(pub &'a str);

impl<'a> StringRef<'a> {
    /// The path of the resource, as one element.
    pub fn path(&self) -> (r: &'a str)
        ensures
            r@ == self.0@,
    {
        self.0
    }

    /// The relation type of the link to the resource: none is given.
    pub fn rel(&self) -> (r: Option<&'a str>)
        ensures
            r is None,
    {
        None
    }
}

} // verus!
