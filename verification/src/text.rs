//! String comparison with a specification, shared by the registry and the
//! state store.

use vstd::prelude::*;

verus! {

/// Compares two string slices by content. The result is exactly equality of
/// their character sequences.
pub fn str_eq(a: &str, b: &str) -> (r: bool)
    ensures
        r == (a@ == b@),
{
    let sa: String = a.to_owned();
    let sb: String = b.to_owned();
    sa == sb
}

} // verus!
