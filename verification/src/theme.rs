//! The user's own style sheet, reloaded when it changes.

use vstd::prelude::*;

use crate::text;
use crate::text::str_eq;

verus! {

/// How long to wait after a change before the style sheet is read, in milliseconds: an editor
/// makes several changes per save.
pub const COALESCE_MS: u64 = 80;

/// Whether a change in the configuration directory is about the style sheet, `names` being the
/// files it is about.
///
/// The directory is watched rather than the file itself: an editor that writes by renaming would
/// otherwise end the watch on its first save.
pub fn concerns_theme(names: &Vec<String>) -> (r: bool)
    ensures
        r == text::texts(names@).contains("theme.css"@),
{
    let ghost all = text::texts(names@);
    let mut i: usize = 0;
    while i < names.len()
        invariant
            i <= names@.len(),
            all == text::texts(names@),
            forall|j: int| 0 <= j < i ==> #[trigger] all[j] != "theme.css"@,
        decreases names.len() - i,
    {
        assert(all[i as int] == names@[i as int]@);
        if str_eq(names[i].as_str(), "theme.css") {
            return true;
        }
        i += 1;
    }
    false
}

} // verus!
