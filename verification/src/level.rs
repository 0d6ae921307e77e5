//! Naming of the output artifact.

use vstd::prelude::*;
use vstd::string::StringExecFns;

verus! {

/// The name of the output file for a world directory of the given name: the
/// world's own name with the output extension appended.
pub fn target_file_name(world_name: &str) -> (r: String)
    ensures
        r@ == world_name@ + ".cum"@,
{
    let mut name = String::from_str(world_name);
    name.append(".cum");
    name
}

} // verus!
