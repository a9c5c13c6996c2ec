//! The names of the methods that return a copy of a value with one field
//! replaced.

use vstd::prelude::*;
use vstd::string::*;

verus! {

/// The name of the method that replaces the field `field`.
pub open spec fn method_name(field: Seq<char>) -> Seq<char> {
    "clone_with_"@ + field
}

/// The name of the method that replaces the field `field`: `clone_with_`
/// and the field's name.
pub fn clone_with_method_name(field: &str) -> (name: String)
    ensures
        name@ == method_name(field@),
{
    let mut name = String::from_str("clone_with_");
    name.append(field);
    name
}

} // verus!
