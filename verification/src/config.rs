//! Application configuration.

use vstd::prelude::*;

verus! {

/// Returns the list of installed application names; none are registered.
pub fn get_installed_apps() -> (r: Vec<&'static str>)
    ensures
        r@.len() == 0,
{
    Vec::new()
}

} // verus!
