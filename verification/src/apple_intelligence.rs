//! The on-device language model bridge, which this build does not include.
use vstd::prelude::*;

verus! {

/// Whether the on-device language model is available: never, in this build.
pub fn check_apple_intelligence_availability() -> (available: bool)
    ensures
        !available,
{
    false
}

/// Processes `user_content` under `system_prompt` with the on-device model.
/// The bridge is not part of this build, so this always fails with a
/// message saying so.
pub fn process_text_with_system_prompt(system_prompt: &str, user_content: &str, max_tokens: i32) -> (r:
    Result<String, String>)
    ensures
        r matches Err(e) && e@ == "Apple Intelligence is disabled on this build."@,
{
    Err(String::from_str("Apple Intelligence is disabled on this build."))
}

} // verus!
