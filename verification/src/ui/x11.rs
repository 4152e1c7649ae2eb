//! What kind of window the popup is, where a window manager asks.

use vstd::prelude::*;

use crate::text;
use crate::text::{cat, to_uppercase};

verus! {

/// The name of a window type: the short name of the configuration, in upper case, behind the
/// prefix that they all have.
pub fn window_type_name(kind: &str) -> (r: String)
    ensures
        r@ == "_NET_WM_WINDOW_TYPE_"@ + text::uppercase(kind@),
{
    cat("_NET_WM_WINDOW_TYPE_", to_uppercase(kind).as_str())
}

} // verus!
