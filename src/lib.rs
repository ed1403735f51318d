use vstd::prelude::*;

pub mod belongings;
pub mod database;
pub mod field;
pub mod folder;
pub mod keyed;
pub mod ordered;
pub mod section;
pub mod url;
pub mod view;
pub mod view_ids;

verus! {

/// Whether two texts hold the same characters.
pub fn same_text(a: &str, b: &str) -> (r: bool)
    ensures
        r == (a@ == b@),
{
    let x: String = a.to_owned();
    let y: String = b.to_owned();
    x == y
}

} // verus!
