use vstd::prelude::*;

verus! {

/// Hands a finished file over to the media server.
///
/// No transfer mechanism is configured yet, so every request succeeds
/// without moving anything.
pub fn transfer_file(file_path: &str, destination: &str) -> (r: Result<(), String>)
    ensures
        r is Ok,
{
    Ok(())
}

} // verus!
