//! Connection flow control (RFC 7540, section 6.9).

use vstd::prelude::*;
use crate::http2::settings::MAXIMUM_FLOW_CONTROL_WINDOW_SIZE;

verus! {

/// The increment that tops the flow-control window up to the maximum size.
pub fn get_window_update_amount(current_window_size: u32) -> (r: u32)
    requires
        current_window_size <= MAXIMUM_FLOW_CONTROL_WINDOW_SIZE,
    ensures
        r == MAXIMUM_FLOW_CONTROL_WINDOW_SIZE - current_window_size,
        current_window_size + r == MAXIMUM_FLOW_CONTROL_WINDOW_SIZE,
{
    MAXIMUM_FLOW_CONTROL_WINDOW_SIZE - current_window_size
}

} // verus!
