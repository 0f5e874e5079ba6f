use vstd::prelude::*;

verus! {

// ---------------------------------------------------------------------------
// The wire format. A sync frame travels as one line of the duplex stream:
//
//     CLIPBOARD_SYNC:{"content":"<escaped text>"}
//
// The text is escaped so that a quote, a backslash or a line break in the
// clipboard value can never end the quoted content or split the line.
// ---------------------------------------------------------------------------

/// The fixed marker that opens every sync frame line.
pub open spec fn frame_prefix() -> Seq<char> {
    "CLIPBOARD_SYNC:"@
}

/// Everything of a frame line that precedes the escaped content.
pub open spec fn frame_head() -> Seq<char> {
    frame_prefix() + "{\"content\":\""@
}

/// Everything of a frame line that follows the escaped content.
pub open spec fn frame_tail() -> Seq<char> {
    "\"}"@
}

/// The characters that stand for `c` inside a frame's quoted content.
pub open spec fn escaped_char(c: char) -> Seq<char> {
    if c == '"' {
        seq!['\\', '"']
    } else if c == '\\' {
        seq!['\\', '\\']
    } else if c == '\n' {
        seq!['\\', 'n']
    } else if c == '\r' {
        seq!['\\', 'r']
    } else if c == '\t' {
        seq!['\\', 't']
    } else {
        seq![c]
    }
}

/// The escaped form of a whole text.
pub open spec fn escape(t: Seq<char>) -> Seq<char>
    decreases t.len(),
{
    if t.len() == 0 {
        Seq::empty()
    } else {
        escaped_char(t[0]) + escape(t.drop_first())
    }
}

/// What the character after a backslash stands for, if anything.
pub open spec fn escape_code(c: char) -> Option<char> {
    if c == '"' {
        Some('"')
    } else if c == '\\' {
        Some('\\')
    } else if c == 'n' {
        Some('\n')
    } else if c == 'r' {
        Some('\r')
    } else if c == 't' {
        Some('\t')
    } else {
        None
    }
}

/// Whether a character sequence is a well-formed escaped content: no raw
/// quote, and every backslash opens a recognized two-character escape.
pub open spec fn valid_escaped(s: Seq<char>) -> bool
    decreases s.len(),
{
    if s.len() == 0 {
        true
    } else if s[0] == '\\' {
        s.len() >= 2 && escape_code(s[1]) is Some && valid_escaped(s.skip(2))
    } else if s[0] == '"' {
        false
    } else {
        valid_escaped(s.skip(1))
    }
}

/// The text a well-formed escaped content stands for.
pub open spec fn unescape(s: Seq<char>) -> Seq<char>
    decreases s.len(),
{
    if s.len() == 0 {
        Seq::empty()
    } else if s[0] == '\\' {
        if s.len() >= 2 && escape_code(s[1]) is Some {
            seq![escape_code(s[1])->0] + unescape(s.skip(2))
        } else {
            unescape(s.skip(1))
        }
    } else {
        seq![s[0]] + unescape(s.skip(1))
    }
}

/// The frame line that carries text `t`.
pub open spec fn frame_line(t: Seq<char>) -> Seq<char> {
    frame_head() + escape(t) + frame_tail()
}

/// Whether a stream line carries the frame marker (and so is never forwarded
/// as pass-through text, whether or not its remainder decodes).
pub open spec fn is_frame(l: Seq<char>) -> bool {
    l.len() >= frame_prefix().len() && l.take(frame_prefix().len() as int) == frame_prefix()
}

/// The text a stream line carries, when it is a well-formed frame line.
pub open spec fn decode_of(l: Seq<char>) -> Option<Seq<char>> {
    let hl = frame_head().len() as int;
    let tl = frame_tail().len() as int;
    if l.len() >= hl + tl && l.take(hl) == frame_head() && l.skip(l.len() - tl)
        == frame_tail() && valid_escaped(l.subrange(hl, l.len() - tl)) {
        Some(unescape(l.subrange(hl, l.len() - tl)))
    } else {
        None
    }
}

// ---------------------------------------------------------------------------
// Escape laws.
// ---------------------------------------------------------------------------

/// Escaping distributes over appending one character at the end.
pub proof fn lemma_escape_snoc(s: Seq<char>, c: char)
    ensures
        escape(s.push(c)) == escape(s) + escaped_char(c),
    decreases s.len(),
{
    if s.len() == 0 {
        assert(s.push(c)[0] == c);
        assert(s.push(c).drop_first() =~= Seq::<char>::empty());
        assert(escape(s.push(c).drop_first()) =~= Seq::<char>::empty());
        assert(escape(s.push(c)) == escaped_char(c) + escape(s.push(c).drop_first()));
        assert(escape(s) =~= Seq::<char>::empty());
        assert(escape(s.push(c)) =~= escape(s) + escaped_char(c));
    } else {
        assert(s.push(c)[0] == s[0]);
        assert(s.push(c).drop_first() =~= s.drop_first().push(c));
        lemma_escape_snoc(s.drop_first(), c);
        assert(escape(s.push(c)) == escaped_char(s[0]) + escape(s.drop_first().push(c)));
        assert(escape(s.push(c)) =~= escape(s) + escaped_char(c));
    }
}

/// Escaping is invertible: the escaped form of any text is well formed and
/// unescapes back to that text.
pub proof fn lemma_unescape_escape(t: Seq<char>)
    ensures
        valid_escaped(escape(t)),
        unescape(escape(t)) == t,
    decreases t.len(),
{
    if t.len() == 0 {
    } else {
        lemma_unescape_escape(t.drop_first());
        let e = escape(t);
        let c = t[0];
        assert(e == escaped_char(c) + escape(t.drop_first()));
        if c == '"' || c == '\\' || c == '\n' || c == '\r' || c == '\t' {
            assert(escaped_char(c).len() == 2);
            assert(e[0] == '\\');
            assert(escape_code(e[1]) == Some(c));
            assert(e.skip(2) =~= escape(t.drop_first()));
            assert(unescape(e) =~= seq![c] + t.drop_first());
            assert(seq![c] + t.drop_first() =~= t);
        } else {
            assert(escaped_char(c) =~= seq![c]);
            assert(e[0] == c);
            assert(e[0] != '\\' && e[0] != '"');
            assert(e.skip(1) =~= escape(t.drop_first()));
            assert(unescape(e) =~= seq![c] + t.drop_first());
            assert(seq![c] + t.drop_first() =~= t);
        }
    }
}

// ---------------------------------------------------------------------------
// The encoder.
// ---------------------------------------------------------------------------

/// Build the frame line that carries `content` onto the stream.
#[verifier::loop_isolation(false)]
pub fn encode_frame(content: &str) -> (r: String)
    ensures
        r@ == frame_line(content@),
{
    let mut out = String::from_str("CLIPBOARD_SYNC:");
    out.append("{\"content\":\"");
    let chars = crate::text::str_to_chars(content);
    let mut i: usize = 0;
    while i < chars.len()
        invariant
            chars@ == content@,
            i <= chars@.len(),
            out@ == frame_head() + escape(content@.take(i as int)),
        decreases chars@.len() - i,
    {
        let c = chars[i];
        if c == '"' {
            out.push('\\');
            out.push('"');
        } else if c == '\\' {
            out.push('\\');
            out.push('\\');
        } else if c == '\n' {
            out.push('\\');
            out.push('n');
        } else if c == '\r' {
            out.push('\\');
            out.push('r');
        } else if c == '\t' {
            out.push('\\');
            out.push('t');
        } else {
            out.push(c);
        }
        proof {
            assert(content@.take(i as int).push(content@[i as int]) =~= content@.take(
                i as int + 1,
            ));
            lemma_escape_snoc(content@.take(i as int), content@[i as int]);
            assert(out@ =~= frame_head() + escape(content@.take(i as int + 1)));
        }
        i += 1;
    }
    proof {
        assert(content@.take(content@.len() as int) =~= content@);
    }
    out.append("\"}");
    proof {
        assert(out@ =~= frame_line(content@));
    }
    out
}

// ---------------------------------------------------------------------------
// The decoder.
// ---------------------------------------------------------------------------

/// Whether this stream line carries the frame marker. Marker lines are never
/// forwarded as pass-through text, whether or not their remainder decodes.
#[verifier::loop_isolation(false)]
pub fn is_frame_line(line: &str) -> (b: bool)
    ensures
        b == is_frame(line@),
{
    proof {
        reveal_strlit("CLIPBOARD_SYNC:");
    }
    let p = "CLIPBOARD_SYNC:";
    let n = line.unicode_len();
    if n < 15 {
        return false;
    }
    let mut i: usize = 0;
    while i < 15
        invariant
            i <= 15,
            forall|j: int| 0 <= j < i ==> line@[j] == frame_prefix()[j],
        decreases 15 - i,
    {
        if line.get_char(i) != p.get_char(i) {
            proof {
                assert(line@.take(15)[i as int] != frame_prefix()[i as int]);
            }
            return false;
        }
        i += 1;
    }
    proof {
        assert(line@.take(15) =~= frame_prefix());
    }
    true
}

/// Decode one stream line as a sync frame. `None` both for lines without the
/// marker and for marker lines whose remainder is malformed; the caller tells
/// the two apart with `is_frame_line`.
#[verifier::loop_isolation(false)]
pub fn decode_frame(line: &str) -> (r: Option<String>)
    ensures
        r matches Some(s) ==> decode_of(line@) == Some(s@),
        r is None ==> decode_of(line@) is None,
{
    proof {
        reveal_strlit("CLIPBOARD_SYNC:");
        reveal_strlit("{\"content\":\"");
        reveal_strlit("\"}");
        reveal_strlit("CLIPBOARD_SYNC:{\"content\":\"");
    }
    let head = "CLIPBOARD_SYNC:{\"content\":\"";
    proof {
        assert(head@ =~= frame_head());
    }
    let chars = crate::text::str_to_chars(line);
    let n = chars.len();
    if n < 29 {
        return None;
    }
    let mut i: usize = 0;
    while i < 27
        invariant
            i <= 27,
            forall|j: int| 0 <= j < i ==> line@[j] == frame_head()[j],
        decreases 27 - i,
    {
        if chars[i] != head.get_char(i) {
            proof {
                assert(line@.take(27)[i as int] != frame_head()[i as int]);
            }
            return None;
        }
        i += 1;
    }
    proof {
        assert(line@.take(27) =~= frame_head());
    }
    if chars[n - 2] != '"' || chars[n - 1] != '}' {
        proof {
            if line@.skip(n as int - 2) == frame_tail() {
                assert(line@.skip(n as int - 2)[0] == '"');
                assert(line@.skip(n as int - 2)[1] == '}');
            }
        }
        return None;
    }
    proof {
        assert(line@.skip(n as int - 2) =~= frame_tail());
    }
    let ghost mid: Seq<char> = line@.subrange(27, n as int - 2);
    let end = n - 2;
    let mut out: Vec<char> = Vec::new();
    let mut j: usize = 27;
    proof {
        assert(mid.skip(0) =~= mid);
        assert(out@ + unescape(mid) =~= unescape(mid));
    }
    while j < end
        invariant
            27 <= j <= end,
            valid_escaped(mid.skip(j as int - 27)) ==> valid_escaped(mid) && unescape(mid)
                == out@ + unescape(mid.skip(j as int - 27)),
            !valid_escaped(mid.skip(j as int - 27)) ==> !valid_escaped(mid),
        decreases end - j,
    {
        let ghost rem: Seq<char> = mid.skip(j as int - 27);
        proof {
            assert(rem.len() == end - j);
            assert(rem[0] == line@[j as int]);
        }
        let c = chars[j];
        if c == '"' {
            proof {
                assert(!valid_escaped(rem));
            }
            return None;
        } else if c == '\\' {
            if j + 1 >= end {
                proof {
                    assert(!valid_escaped(rem));
                }
                return None;
            }
            proof {
                assert(rem[1] == line@[j as int + 1]);
                assert(rem.skip(2) =~= mid.skip(j as int + 2 - 27));
            }
            let ghost out0: Seq<char> = out@;
            let d = chars[j + 1];
            if d == '"' {
                out.push('"');
            } else if d == '\\' {
                out.push('\\');
            } else if d == 'n' {
                out.push('\n');
            } else if d == 'r' {
                out.push('\r');
            } else if d == 't' {
                out.push('\t');
            } else {
                proof {
                    assert(escape_code(rem[1]) is None);
                    assert(!valid_escaped(rem));
                }
                return None;
            }
            proof {
                assert(valid_escaped(rem) == valid_escaped(rem.skip(2)));
                assert(valid_escaped(rem) ==> unescape(rem) =~= seq![escape_code(rem[1])->0]
                    + unescape(rem.skip(2)));
                assert(valid_escaped(rem.skip(2)) ==> out@ + unescape(rem.skip(2)) =~= out0
                    + unescape(rem));
            }
            j += 2;
        } else {
            proof {
                assert(rem.skip(1) =~= mid.skip(j as int + 1 - 27));
            }
            let ghost out0: Seq<char> = out@;
            out.push(c);
            proof {
                assert(valid_escaped(rem) == valid_escaped(rem.skip(1)));
                assert(unescape(rem) =~= seq![rem[0]] + unescape(rem.skip(1)));
                assert(out@ + unescape(rem.skip(1)) =~= out0 + unescape(rem));
            }
            j += 1;
        }
    }
    proof {
        assert(mid.skip(end as int - 27) =~= Seq::<char>::empty());
        assert(valid_escaped(mid));
        assert(unescape(mid) =~= out@);
    }
    let s = crate::text::chars_to_string(&out);
    Some(s)
}

// ---------------------------------------------------------------------------
// Frame laws.
// ---------------------------------------------------------------------------

/// A line that decodes as a frame carries the frame marker: decoding and the
/// pass-through classification never overlap.
pub proof fn lemma_decode_is_frame(l: Seq<char>)
    ensures
        decode_of(l) is Some ==> is_frame(l),
{
    reveal_strlit("CLIPBOARD_SYNC:");
    reveal_strlit("{\"content\":\"");
    if decode_of(l) is Some {
        assert(l.take(27) == frame_head());
        assert(l.take(15) =~= l.take(27).take(15));
        assert(l.take(27).take(15) =~= frame_prefix());
    }
}

/// Round trip: the frame line encoded for any text `t` decodes back to
/// exactly `t`.
pub proof fn lemma_round_trip(t: Seq<char>)
    ensures
        decode_of(frame_line(t)) == Some(t),
{
    reveal_strlit("CLIPBOARD_SYNC:");
    reveal_strlit("{\"content\":\"");
    reveal_strlit("\"}");
    lemma_unescape_escape(t);
    let l = frame_line(t);
    assert(l.len() == 27 + escape(t).len() + 2);
    assert(l.take(27) =~= frame_head());
    assert(l.skip(l.len() - 2) =~= frame_tail());
    assert(l.subrange(27, l.len() - 2) =~= escape(t));
}

} // verus!
