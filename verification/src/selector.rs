use vstd::prelude::*;

use crate::text::trim_of;
use crate::text::trimmed;

verus! {

/// Reads the interactive selector's outcome. A child that exited with a
/// failure status was cancelled by the user, and a successful child whose
/// trimmed output is empty chose nothing: both are the normal "no selection"
/// outcome, not errors. Otherwise the selection is exactly the trimmed
/// output, with no other transformation.
pub fn interpret_selection(success: bool, out: &str) -> (r: Option<String>)
    ensures
        !success ==> r is None,
        success && trimmed(out@).len() == 0 ==> r is None,
        success && trimmed(out@).len() > 0 ==> (r matches Some(s) && s@ == trimmed(out@)),
{
    if !success {
        return None;
    }
    let t = trim_of(out);
    if t.as_str().is_empty() {
        None
    } else {
        Some(t)
    }
}

} // verus!
