//! Core of a two-machine clipboard synchronizer: the dedup gate that breaks
//! propagation loops, the line-oriented frame codec that multiplexes clipboard
//! updates with pass-through text on one duplex stream, and the GET/SET
//! request protocol served to headless endpoints over a local socket.
//! All I/O (sockets, the native clipboard, the stream itself) lives with the
//! caller; this crate holds the decisions and the wire formats.

use vstd::prelude::*;

pub mod bridge;
pub mod client;
pub mod frame;
pub mod server;
pub mod sync_state;
pub mod text;
pub mod watcher;

verus! {

/// Which long-lived duty the process runs when started in iosync mode.
pub enum IosyncDuty {
    /// Answer GET/SET requests on the local socket (the headless side).
    SocketServer,
    /// Poll the native clipboard and relay the duplex stream (the native side).
    ClipboardRelay,
}

/// Begin an iosync session: construct the fresh shared state every worker is
/// handed, and choose the duty the platform runs. The I/O loops themselves
/// (socket accept, clipboard poll, stream read) live with the caller.
pub fn run_iosync_mode(on_linux: bool) -> (r: (sync_state::SyncState, IosyncDuty))
    ensures
        r.0@ == Seq::<char>::empty(),
        on_linux ==> r.1 is SocketServer,
        !on_linux ==> r.1 is ClipboardRelay,
{
    let state = sync_state::SyncState::new();
    if on_linux {
        (state, IosyncDuty::SocketServer)
    } else {
        (state, IosyncDuty::ClipboardRelay)
    }
}

} // verus!
