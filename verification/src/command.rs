//! Resolution of external tool names. On this platform a binary is invoked
//! through the search path, so the name resolves to itself; looking a name
//! up in bundled tool directories is a concern of other platforms.

use vstd::prelude::*;

verus! {

/// The path a tool name resolves to: the name itself, leaving resolution to
/// the system's search path.
pub fn binary_to_path(binary_name: String) -> (r: String)
    ensures
        r@ == binary_name@,
{
    binary_name
}

} // verus!
