use vstd::prelude::*;

pub mod commands;
pub mod errors;
pub mod ids;
pub mod laws;
pub mod pump;
pub mod registry;
pub mod session;
pub mod shutdown;
pub mod spawn;

verus! {

/// Resolve the home directory reported by the environment, falling back to
/// the filesystem root when the variable is unset.
pub fn home_directory(value: Option<String>) -> (r: String)
    ensures
        value matches Some(v) ==> r@ == v@,
        value is None ==> r@ == "/"@,
{
    match value {
        Some(v) => v,
        None => "/".to_owned(),
    }
}

} // verus!
