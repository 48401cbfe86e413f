//! Small string helpers shared across the crate.

use vstd::prelude::*;
use vstd::string::*;

verus! {

/// Returns the input without its trailing `/`, if it has one; otherwise the
/// input unchanged.
pub fn remove_trailling_slash(string: &str) -> (r: String)
    ensures
        string@.len() > 0 && string@.last() == '/' ==> r@ == string@.drop_last(),
        !(string@.len() > 0 && string@.last() == '/') ==> r@ == string@,
{
    let n = string.unicode_len();
    if n > 0 && string.get_char(n - 1) == '/' {
        let head = string.substring_char(0, n - 1);
        assert(head@ =~= string@.drop_last());
        head.to_owned()
    } else {
        string.to_owned()
    }
}

} // verus!
