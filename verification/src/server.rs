use vstd::prelude::*;

use crate::frame::encode_frame;
use crate::frame::frame_line;
use crate::sync_state::SyncState;
use crate::sync_state::accepts;
use crate::sync_state::next_last;
use crate::text::trim_line;
use crate::text::trimmed;

verus! {

// ---------------------------------------------------------------------------
// The request protocol served on the local socket: one connection, one
// request, one reply. `GET` reads the last synchronized value; `SET <text>`
// offers a new one to the dedup gate and, when accepted, hands back the frame
// line to emit on the outbound sync channel; anything else is refused.
// ---------------------------------------------------------------------------

/// Whether a request line asks to read the synchronized value.
pub open spec fn is_get(req: Seq<char>) -> bool {
    trimmed(req) == "GET"@
}

/// Whether a request line asks to update the synchronized value.
pub open spec fn is_set(req: Seq<char>) -> bool {
    trimmed(req).len() >= 4 && trimmed(req).take(4) == "SET "@
}

/// The text a SET request carries.
pub open spec fn set_payload(req: Seq<char>) -> Seq<char> {
    trimmed(req).skip(4)
}

/// What one served connection ends with: the reply written back to the
/// client, and the frame line to emit on the outbound sync channel, if the
/// request put a genuinely new value into the dedup gate.
pub struct RequestOutcome {
    pub reply: String,
    pub emit: Option<String>,
}

/// Serve one request against the shared gate.
///
/// `GET` replies with a snapshot of the last synchronized value and changes
/// nothing. `SET` always replies `OK`; the dedup gate accepts the payload exactly
/// when it differs from the last value, and only then is a frame emitted.
/// Any other verb replies `Unknown command` and changes nothing.
pub fn handle_request(state: &mut SyncState, request: &str) -> (out: RequestOutcome)
    ensures
        is_get(request@) ==> out.reply@ == old(state)@ && out.emit is None && final(state)@
            == old(state)@,
        is_set(request@) ==> {
            &&& out.reply@ == "OK"@
            &&& final(state)@ == next_last(old(state)@, set_payload(request@))
            &&& (accepts(old(state)@, set_payload(request@)) ==> (out.emit matches Some(f)
                && f@ == frame_line(set_payload(request@))))
            &&& (!accepts(old(state)@, set_payload(request@)) ==> out.emit is None)
        },
        !is_get(request@) && !is_set(request@) ==> out.reply@ == "Unknown command"@
            && out.emit is None && final(state)@ == old(state)@,
{
    proof {
        reveal_strlit("GET");
        reveal_strlit("SET ");
    }
    let cmd = trim_line(request);
    let get_verb = String::from_str("GET");
    if cmd == get_verb {
        RequestOutcome { reply: state.snapshot(), emit: None }
    } else {
        let n = cmd.as_str().unicode_len();
        let mut is_set_req = n >= 4;
        if is_set_req {
            is_set_req = cmd.as_str().get_char(0) == 'S' && cmd.as_str().get_char(1) == 'E'
                && cmd.as_str().get_char(2) == 'T' && cmd.as_str().get_char(3) == ' ';
        }
        proof {
            if n >= 4 {
                if cmd@[0] == 'S' && cmd@[1] == 'E' && cmd@[2] == 'T' && cmd@[3] == ' ' {
                    assert(cmd@.take(4) =~= "SET "@);
                } else {
                    assert(cmd@.take(4)[0] == cmd@[0] && cmd@.take(4)[1] == cmd@[1]
                        && cmd@.take(4)[2] == cmd@[2] && cmd@.take(4)[3] == cmd@[3]);
                    assert(cmd@.take(4) != "SET "@);
                }
            }
            assert(is_set_req == is_set(request@));
        }
        if is_set_req {
            let payload = cmd.as_str().substring_char(4, n).to_owned();
            proof {
                assert(cmd@.subrange(4, n as int) =~= set_payload(request@));
            }
            let emit = match state.try_accept(payload) {
                Some(v) => Some(encode_frame(v.as_str())),
                None => None,
            };
            RequestOutcome { reply: String::from_str("OK"), emit }
        } else {
            RequestOutcome { reply: String::from_str("Unknown command"), emit: None }
        }
    }
}

} // verus!
