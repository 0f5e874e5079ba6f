use vstd::prelude::*;

use crate::frame::encode_frame;
use crate::frame::frame_line;
use crate::sync_state::SyncState;
use crate::sync_state::accepts;
use crate::sync_state::next_last;

verus! {

// ---------------------------------------------------------------------------
// The clipboard watcher: the caller polls the native clipboard on a fixed
// interval and hands each reading to one tick. A failed reading skips the
// tick; a reading equal to the last synchronized value is a self-triggered
// echo and is suppressed; only a genuinely new value yields a frame line for
// the outbound sync channel.
// ---------------------------------------------------------------------------

/// One tick of the clipboard watcher, on one reading of the native
/// clipboard. Returns the frame line to emit outbound, if the reading was a
/// genuine external change.
pub fn watcher_tick(state: &mut SyncState, reading: Option<String>) -> (emit: Option<String>)
    ensures
        reading is None ==> final(state)@ == old(state)@ && emit is None,
        reading matches Some(t) ==> {
            &&& final(state)@ == next_last(old(state)@, t@)
            &&& (accepts(old(state)@, t@) ==> (emit matches Some(f) && f@ == frame_line(t@)))
            &&& (!accepts(old(state)@, t@) ==> emit is None)
        },
{
    match reading {
        None => None,
        Some(text) => match state.try_accept(text) {
            Some(v) => Some(encode_frame(v.as_str())),
            None => None,
        },
    }
}

} // verus!
