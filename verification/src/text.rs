//! Lists of strings and what they hold.

use vstd::prelude::*;
use vstd::string::*;

verus! {

/// What a list of strings holds, each string as its characters.
pub open spec fn strings(list: Seq<String>) -> Seq<Seq<char>> {
    list.map_values(|s: String| s@)
}

/// Pushing a string onto a list pushes its characters onto the list's view.
pub proof fn lemma_strings_push(before: Seq<String>, after: Seq<String>, s: String)
    requires
        after == before.push(s),
    ensures
        strings(after) == strings(before).push(s@),
{
    assert(strings(after) =~= strings(before).push(s@));
}

/// Whether `needle` is one of the strings of `list`.
pub fn contains_string(list: &Vec<String>, needle: &String) -> (found: bool)
    ensures
        found == strings(list@).contains(needle@),
{
    let mut i: usize = 0;
    while i < list.len()
        invariant
            i <= list.len(),
            forall|k: int| 0 <= k < i ==> strings(list@)[k] != needle@,
        decreases list.len() - i,
    {
        if list[i] == *needle {
            assert(strings(list@)[i as int] == needle@);
            return true;
        }
        i += 1;
    }
    false
}

} // verus!
