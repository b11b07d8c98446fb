//! The sort wrapper shared by query methods: a sort property together with
//! its direction.

use vstd::prelude::*;

verus! {

/// One sort criterion: a method-specific property and a direction,
/// ascending unless asked otherwise.
pub struct Comparator<T> {
    pub property: T,
    pub is_ascending: bool,
}

impl<T> Comparator<T> {
    /// An ascending sort on the given property.
    pub fn new(property: T) -> (r: Comparator<T>)
        ensures
            r.property == property,
            r.is_ascending == true,
    {
        Comparator { property, is_ascending: true }
    }

    /// The same criterion, descending.
    pub fn descending(self) -> (r: Comparator<T>)
        ensures
            r.property == self.property,
            r.is_ascending == false,
    {
        Comparator { property: self.property, is_ascending: false }
    }

    /// The same criterion, ascending.
    pub fn ascending(self) -> (r: Comparator<T>)
        ensures
            r.property == self.property,
            r.is_ascending == true,
    {
        Comparator { property: self.property, is_ascending: true }
    }
}

} // verus!
