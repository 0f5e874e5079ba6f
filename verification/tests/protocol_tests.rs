use iosync::bridge::{bridge_line, bridge_lines, BridgeAction};
use iosync::client::{is_get_flag, join_lines, make_get_request, make_set_request};
use iosync::frame::{decode_frame, encode_frame, is_frame_line};
use iosync::server::handle_request;
use iosync::sync_state::SyncState;
use iosync::watcher::watcher_tick;
use iosync::{run_iosync_mode, IosyncDuty};

// ---------------------------------------------------------------------------
// The dedup gate.
// ---------------------------------------------------------------------------

#[test]
fn try_accept_is_idempotent() {
    let mut st = SyncState::new();
    let first = st.try_accept(String::from("hello"));
    assert_eq!(first, Some(String::from("hello")));
    let second = st.try_accept(String::from("hello"));
    assert_eq!(second, None);
    assert_eq!(st.snapshot(), "hello");
}

#[test]
fn fresh_gate_is_empty() {
    let st = SyncState::new();
    assert_eq!(st.snapshot(), "");
}

#[test]
fn gate_accepts_each_distinct_value_once() {
    let mut st = SyncState::new();
    assert!(st.try_accept(String::from("a")).is_some());
    assert!(st.try_accept(String::from("b")).is_some());
    assert!(st.try_accept(String::from("b")).is_none());
    assert!(st.try_accept(String::from("a")).is_some());
    assert_eq!(st.snapshot(), "a");
}

// ---------------------------------------------------------------------------
// The frame codec.
// ---------------------------------------------------------------------------

#[test]
fn encode_frame_exact_form() {
    assert_eq!(
        encode_frame("hello"),
        "CLIPBOARD_SYNC:{\"content\":\"hello\"}"
    );
    assert_eq!(
        encode_frame("a\"b\\c"),
        "CLIPBOARD_SYNC:{\"content\":\"a\\\"b\\\\c\"}"
    );
    assert_eq!(
        encode_frame("line1\nline2\tend\r"),
        "CLIPBOARD_SYNC:{\"content\":\"line1\\nline2\\tend\\r\"}"
    );
    assert_eq!(encode_frame(""), "CLIPBOARD_SYNC:{\"content\":\"\"}");
}

#[test]
fn round_trip_plain() {
    let line = encode_frame("hello world");
    assert_eq!(decode_frame(&line), Some(String::from("hello world")));
}

#[test]
fn round_trip_special_characters() {
    for t in [
        "",
        "quote \" backslash \\ done",
        "tab\tnewline\ncarriage\r",
        "unicode \u{00e9}\u{4e2d}",
        "\\n is not a newline",
        "{\"content\":\"nested\"}",
    ] {
        let line = encode_frame(t);
        assert_eq!(decode_frame(&line), Some(String::from(t)), "content {:?}", t);
    }
}

#[test]
fn decode_rejects_malformed_frames() {
    // no frame marker at all
    assert_eq!(decode_frame("just a line"), None);
    // marker alone, no body
    assert_eq!(decode_frame("CLIPBOARD_SYNC:"), None);
    // body is not the expected object
    assert_eq!(decode_frame("CLIPBOARD_SYNC:{\"other\":\"x\"}"), None);
    // unterminated content
    assert_eq!(decode_frame("CLIPBOARD_SYNC:{\"content\":\"x"), None);
    // raw quote inside the content
    assert_eq!(decode_frame("CLIPBOARD_SYNC:{\"content\":\"a\"b\"}"), None);
    // unknown escape
    assert_eq!(decode_frame("CLIPBOARD_SYNC:{\"content\":\"a\\x\"}"), None);
    // trailing backslash
    assert_eq!(decode_frame("CLIPBOARD_SYNC:{\"content\":\"a\\\"}"), None);
}

#[test]
fn frame_marker_classification() {
    assert!(is_frame_line("CLIPBOARD_SYNC:{\"content\":\"x\"}"));
    assert!(is_frame_line("CLIPBOARD_SYNC:garbage"));
    assert!(!is_frame_line("ordinary output"));
    assert!(!is_frame_line("CLIPBOARD_SYNC"));
    assert!(!is_frame_line(""));
}

// ---------------------------------------------------------------------------
// The stream bridge.
// ---------------------------------------------------------------------------

#[test]
fn loop_freedom_duplicate_frame_is_not_applied() {
    let mut st = SyncState::new();
    st.try_accept(String::from("known"));
    let line = encode_frame("known");
    match bridge_line(&mut st, line) {
        BridgeAction::Ignore => {}
        _ => panic!("a frame equal to last_text must be ignored"),
    }
    assert_eq!(st.snapshot(), "known");
}

#[test]
fn new_frame_is_written_to_clipboard() {
    let mut st = SyncState::new();
    let line = encode_frame("fresh");
    match bridge_line(&mut st, line) {
        BridgeAction::SetClipboard(v) => assert_eq!(v, "fresh"),
        _ => panic!("a new frame must be applied"),
    }
    assert_eq!(st.snapshot(), "fresh");
}

#[test]
fn malformed_frame_is_dropped_silently() {
    let mut st = SyncState::new();
    let act = bridge_line(&mut st, String::from("CLIPBOARD_SYNC:broken"));
    match act {
        BridgeAction::Ignore => {}
        _ => panic!("a malformed frame must be dropped"),
    }
    assert_eq!(st.snapshot(), "");
}

#[test]
fn pass_through_fidelity_preserves_lines_and_order() {
    let mut st = SyncState::new();
    let lines = vec![
        String::from("first"),
        encode_frame("update"),
        String::from("second  with spaces "),
        String::from("CLIPBOARD_SYNC:not json"),
        String::from(""),
        String::from("third"),
    ];
    let (forwarded, writes) = bridge_lines(&mut st, lines);
    assert_eq!(
        forwarded,
        vec![
            String::from("first"),
            String::from("second  with spaces "),
            String::from(""),
            String::from("third"),
        ]
    );
    assert_eq!(writes, vec![String::from("update")]);
    assert_eq!(st.snapshot(), "update");
}

// ---------------------------------------------------------------------------
// The socket protocol.
// ---------------------------------------------------------------------------

#[test]
fn get_on_fresh_server_returns_empty() {
    let mut st = SyncState::new();
    let out = handle_request(&mut st, "GET\n");
    assert_eq!(out.reply, "");
    assert!(out.emit.is_none());
}

#[test]
fn set_then_get() {
    let mut st = SyncState::new();
    let out = handle_request(&mut st, "SET hello");
    assert_eq!(out.reply, "OK");
    assert!(out.emit.is_some());
    let out = handle_request(&mut st, "GET\n");
    assert_eq!(out.reply, "hello");
    assert!(out.emit.is_none());
}

#[test]
fn duplicate_set_replies_ok_but_emits_once() {
    let mut st = SyncState::new();
    let first = handle_request(&mut st, "SET hello");
    assert_eq!(first.reply, "OK");
    assert!(first.emit.is_some());
    let second = handle_request(&mut st, "SET hello");
    assert_eq!(second.reply, "OK");
    assert!(second.emit.is_none());
}

#[test]
fn unknown_verb_is_refused() {
    let mut st = SyncState::new();
    let out = handle_request(&mut st, "PING\n");
    assert_eq!(out.reply, "Unknown command");
    assert!(out.emit.is_none());
    assert_eq!(st.snapshot(), "");
}

#[test]
fn set_without_payload_space_is_unknown() {
    let mut st = SyncState::new();
    let out = handle_request(&mut st, "SET\n");
    assert_eq!(out.reply, "Unknown command");
    assert!(out.emit.is_none());
}

#[test]
fn request_whitespace_is_trimmed() {
    let mut st = SyncState::new();
    let out = handle_request(&mut st, "  GET  \n");
    assert_eq!(out.reply, "");
    // trailing whitespace of the request line is stripped before the
    // payload is taken, as is any internal spacing kept
    let out = handle_request(&mut st, "SET a b \t\r\n");
    assert_eq!(out.reply, "OK");
    let out = handle_request(&mut st, "GET\n");
    assert_eq!(out.reply, "a b");
}

#[test]
fn set_race_last_applied_wins_one_emission_each() {
    // The lock serializes racing SETs; this is the order "SET a" then "SET b".
    let mut st = SyncState::new();
    let first = handle_request(&mut st, "SET a");
    let second = handle_request(&mut st, "SET b");
    assert!(first.emit.is_some());
    assert!(second.emit.is_some());
    assert_eq!(st.snapshot(), "b");
    // And in the order where both carry the same value: one emission only.
    let mut st = SyncState::new();
    let first = handle_request(&mut st, "SET a");
    let second = handle_request(&mut st, "SET a");
    assert!(first.emit.is_some());
    assert!(second.emit.is_none());
    assert_eq!(st.snapshot(), "a");
}

#[test]
fn scenario_two_clients() {
    let mut st = SyncState::new();
    // client A sets "alpha"
    let out = handle_request(&mut st, "SET alpha");
    assert_eq!(out.reply, "OK");
    assert!(out.emit.is_some());
    // client B reads it back
    let out = handle_request(&mut st, "GET\n");
    assert_eq!(out.reply, "alpha");
    // client B sets "alpha" again: OK, but no new outbound frame
    let out = handle_request(&mut st, "SET alpha");
    assert_eq!(out.reply, "OK");
    assert!(out.emit.is_none());
    // client B sets "beta": OK, one outbound frame carrying beta
    let out = handle_request(&mut st, "SET beta");
    assert_eq!(out.reply, "OK");
    assert_eq!(
        out.emit,
        Some(String::from("CLIPBOARD_SYNC:{\"content\":\"beta\"}"))
    );
}

// ---------------------------------------------------------------------------
// The clipboard watcher.
// ---------------------------------------------------------------------------

#[test]
fn watcher_tick_skips_failed_reads_and_duplicates() {
    let mut st = SyncState::new();
    assert_eq!(watcher_tick(&mut st, None), None);
    let emitted = watcher_tick(&mut st, Some(String::from("copied")));
    assert_eq!(
        emitted,
        Some(String::from("CLIPBOARD_SYNC:{\"content\":\"copied\"}"))
    );
    // the same reading on the next tick is a self-triggered echo
    assert_eq!(watcher_tick(&mut st, Some(String::from("copied"))), None);
    assert_eq!(st.snapshot(), "copied");
}

// ---------------------------------------------------------------------------
// The socket client.
// ---------------------------------------------------------------------------

#[test]
fn client_request_texts() {
    assert_eq!(make_get_request(), "GET\n");
    assert_eq!(make_set_request("some text"), "SET some text");
    assert_eq!(make_set_request(""), "SET ");
}

#[test]
fn client_joins_stdin_lines() {
    let lines = vec![
        String::from("one"),
        String::from("two"),
        String::from("three"),
    ];
    assert_eq!(join_lines(&lines), "one\ntwo\nthree");
    assert_eq!(join_lines(&Vec::new()), "");
    assert_eq!(join_lines(&vec![String::from("solo")]), "solo");
}

#[test]
fn client_mode_flag() {
    assert!(is_get_flag("-o"));
    assert!(!is_get_flag("-x"));
    assert!(!is_get_flag(""));
    assert!(!is_get_flag("-o "));
}

// ---------------------------------------------------------------------------
// Mode startup.
// ---------------------------------------------------------------------------

#[test]
fn iosync_mode_starts_fresh_and_picks_duty() {
    let (st, duty) = run_iosync_mode(true);
    assert_eq!(st.snapshot(), "");
    assert!(matches!(duty, IosyncDuty::SocketServer));
    let (st, duty) = run_iosync_mode(false);
    assert_eq!(st.snapshot(), "");
    assert!(matches!(duty, IosyncDuty::ClipboardRelay));
}
