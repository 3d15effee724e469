use vstd::prelude::*;

verus! {

/// Relies on `uuid::Uuid::new_v4` and its `Display` impl: a fresh random
/// 128-bit identifier rendered in the hyphenated textual form, which is
/// always 36 ASCII characters. Nothing is assumed about which identifier
/// comes back; uniqueness is enforced by the registry.
#[verifier::external_body]
pub fn fresh_session_id() -> (r: String)
    ensures
        r@.len() == 36,
        r.is_ascii(),
{
    uuid::Uuid::new_v4().to_string()
}

} // verus!
