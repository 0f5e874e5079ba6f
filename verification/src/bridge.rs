use vstd::prelude::*;

use crate::frame::decode_frame;
use crate::frame::decode_of;
use crate::frame::is_frame;
use crate::frame::is_frame_line;
use crate::frame::lemma_decode_is_frame;
use crate::sync_state::SyncState;
use crate::sync_state::accepts;
use crate::sync_state::next_last;

verus! {

// ---------------------------------------------------------------------------
// The stream bridge: classifies each inbound line of the duplex stream.
// Frame lines go through the dedup gate and, when genuinely new, to the
// native clipboard; every other line is forwarded to local standard output
// unchanged. The bridge never re-emits a frame, so an applied remote update
// cannot echo back by this path.
// ---------------------------------------------------------------------------

/// What the bridge does with one inbound line.
pub enum BridgeAction {
    /// Not a frame line: forward it verbatim to local standard output.
    Forward(String),
    /// A frame carrying genuinely new content: write it to the native
    /// clipboard.
    SetClipboard(String),
    /// A malformed frame, or a duplicate of the last synchronized value:
    /// drop it.
    Ignore,
}

/// The dedup gate's value after the bridge has seen line `l`.
pub open spec fn bridge_next(last: Seq<char>, l: Seq<char>) -> Seq<char> {
    match decode_of(l) {
        Some(t) => next_last(last, t),
        None => last,
    }
}

/// The clipboard write the bridge makes for line `l`, if any.
pub open spec fn bridge_write(last: Seq<char>, l: Seq<char>) -> Option<Seq<char>> {
    match decode_of(l) {
        Some(t) => if accepts(last, t) {
            Some(t)
        } else {
            None
        },
        None => None,
    }
}

/// Classify and apply one inbound stream line.
pub fn bridge_line(state: &mut SyncState, line: String) -> (act: BridgeAction)
    ensures
        final(state)@ == bridge_next(old(state)@, line@),
        !is_frame(line@) ==> (act matches BridgeAction::Forward(f) && f@ == line@),
        is_frame(line@) ==> match bridge_write(old(state)@, line@) {
            Some(t) => act matches BridgeAction::SetClipboard(s) && s@ == t,
            None => act is Ignore,
        },
{
    if is_frame_line(line.as_str()) {
        match decode_frame(line.as_str()) {
            Some(content) => match state.try_accept(content) {
                Some(v) => BridgeAction::SetClipboard(v),
                None => BridgeAction::Ignore,
            },
            None => BridgeAction::Ignore,
        }
    } else {
        proof {
            lemma_decode_is_frame(line@);
        }
        BridgeAction::Forward(line)
    }
}

/// Loop-freedom: a frame whose decoded content equals the last synchronized
/// value leaves the dedup gate unchanged and triggers no clipboard write; and the
/// bridge has no emission path at all, so nothing is ever echoed back.
pub proof fn lemma_loop_freedom(last: Seq<char>, l: Seq<char>)
    requires
        decode_of(l) == Some(last),
    ensures
        bridge_write(last, l) is None,
        bridge_next(last, l) == last,
{
}

// ---------------------------------------------------------------------------
// The bridge's read loop over a whole inbound batch, and its ordering law.
// ---------------------------------------------------------------------------

/// The pass-through lines among `lines`, in arrival order.
pub open spec fn pass_through_of(lines: Seq<Seq<char>>) -> Seq<Seq<char>>
    decreases lines.len(),
{
    if lines.len() == 0 {
        Seq::empty()
    } else if is_frame(lines[0]) {
        pass_through_of(lines.drop_first())
    } else {
        seq![lines[0]] + pass_through_of(lines.drop_first())
    }
}

/// The dedup gate's value after the bridge has seen every line of `lines`.
pub open spec fn run_next(last: Seq<char>, lines: Seq<Seq<char>>) -> Seq<char>
    decreases lines.len(),
{
    if lines.len() == 0 {
        last
    } else {
        run_next(bridge_next(last, lines[0]), lines.drop_first())
    }
}

/// The clipboard writes the bridge makes over `lines`, in order.
pub open spec fn writes_of(last: Seq<char>, lines: Seq<Seq<char>>) -> Seq<Seq<char>>
    decreases lines.len(),
{
    if lines.len() == 0 {
        Seq::empty()
    } else {
        (match bridge_write(last, lines[0]) {
            Some(t) => seq![t],
            None => Seq::empty(),
        }) + writes_of(bridge_next(last, lines[0]), lines.drop_first())
    }
}

/// Run the bridge over a batch of inbound lines, in arrival order. Returns
/// the lines to forward to local standard output and the clipboard writes to
/// make, each in order. Pass-through fidelity is the first clause: the
/// forwarded lines are exactly the non-frame lines, unchanged, in arrival
/// order.
#[verifier::loop_isolation(false)]
pub fn bridge_lines(state: &mut SyncState, lines: Vec<String>) -> (r: (Vec<String>, Vec<String>))
    ensures
        r.0.deep_view() == pass_through_of(lines.deep_view()),
        r.1.deep_view() == writes_of(old(state)@, lines.deep_view()),
        final(state)@ == run_next(old(state)@, lines.deep_view()),
{
    let ghost dv: Seq<Seq<char>> = lines.deep_view();
    let mut forwarded: Vec<String> = Vec::new();
    let mut writes: Vec<String> = Vec::new();
    let mut i: usize = 0;
    proof {
        assert(dv.skip(0) =~= dv);
        assert(forwarded.deep_view() + pass_through_of(dv) =~= pass_through_of(dv));
        assert(writes.deep_view() + writes_of(state@, dv) =~= writes_of(state@, dv));
    }
    while i < lines.len()
        invariant
            i <= lines@.len(),
            dv == lines.deep_view(),
            pass_through_of(dv) == forwarded.deep_view() + pass_through_of(dv.skip(i as int)),
            writes_of(old(state)@, dv) == writes.deep_view() + writes_of(
                state@,
                dv.skip(i as int),
            ),
            run_next(old(state)@, dv) == run_next(state@, dv.skip(i as int)),
        decreases lines@.len() - i,
    {
        let ghost rem: Seq<Seq<char>> = dv.skip(i as int);
        let ghost st: Seq<char> = state@;
        proof {
            assert(rem[0] == dv[i as int]);
            assert(rem.drop_first() =~= dv.skip(i as int + 1));
        }
        let line = lines[i].clone();
        proof {
            assert(line@ == dv[i as int]);
        }
        let ghost fwd0: Seq<Seq<char>> = forwarded.deep_view();
        let ghost wr0: Seq<Seq<char>> = writes.deep_view();
        proof {
            lemma_decode_is_frame(rem[0]);
        }
        let act = bridge_line(state, line);
        proof {
            assert(writes_of(st, rem) == (match bridge_write(st, rem[0]) {
                Some(t) => seq![t],
                None => Seq::<Seq<char>>::empty(),
            }) + writes_of(bridge_next(st, rem[0]), rem.drop_first()));
            assert(run_next(st, rem) == run_next(bridge_next(st, rem[0]), rem.drop_first()));
        }
        match act {
            BridgeAction::Forward(f) => {
                forwarded.push(f);
                proof {
                    assert(forwarded.deep_view() =~= fwd0 + seq![rem[0]]);
                }
            },
            BridgeAction::SetClipboard(s) => {
                writes.push(s);
                proof {
                    assert(writes.deep_view() =~= wr0 + seq![bridge_write(st, rem[0])->0]);
                }
            },
            BridgeAction::Ignore => {},
        }
        proof {
            assert(pass_through_of(rem) == (if is_frame(rem[0]) {
                pass_through_of(rem.drop_first())
            } else {
                seq![rem[0]] + pass_through_of(rem.drop_first())
            }));
            assert(forwarded.deep_view() + pass_through_of(dv.skip(i as int + 1))
                =~= fwd0 + pass_through_of(rem));
            assert(writes.deep_view() + writes_of(state@, dv.skip(i as int + 1)) =~= wr0
                + writes_of(st, rem));
        }
        i += 1;
    }
    proof {
        assert(dv.skip(dv.len() as int) =~= Seq::<Seq<char>>::empty());
        assert(forwarded.deep_view() + pass_through_of(dv.skip(dv.len() as int))
            =~= forwarded.deep_view());
        assert(writes.deep_view() + writes_of(state@, dv.skip(dv.len() as int))
            =~= writes.deep_view());
    }
    (forwarded, writes)
}

} // verus!
