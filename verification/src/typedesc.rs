//! The declared data type of a topic: a name tag, not a structural type.

use vstd::prelude::*;

verus! {

/// Name of the serialized IDL data type carried on a topic.
#[derive(Debug)]
pub struct TypeDesc {
    pub name: String,
}

impl View for TypeDesc {
    type V = Seq<char>;

    open spec fn view(&self) -> Seq<char> {
        self.name@
    }
}

impl TypeDesc {
    pub fn new(name: String) -> (t: TypeDesc)
        ensures
            t@ == name@,
    {
        TypeDesc { name }
    }
}

impl Clone for TypeDesc {
    fn clone(&self) -> (t: Self)
        ensures
            t@ == self@,
    {
        TypeDesc { name: self.name.clone() }
    }
}

} // verus!
