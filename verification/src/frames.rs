//! The subprotocol's wire frames: classification of inbound frames and
//! encoding of every outbound frame, including the JSON escaping of the
//! one frame that carries free text.
use vstd::prelude::*;
use crate::text::str_to_chars;

verus! {

/// The lower hex digit for a nibble, as the serializer writes it.
pub open spec fn hex_digit(v: int) -> char {
    if v < 10 {
        (v + 48) as char
    } else {
        (v + 87) as char
    }
}

/// JSON escaping of one character: the two-character escapes for quote,
/// backslash and the named controls, the `\u00..` form for the other
/// control characters, and the character itself otherwise.
pub open spec fn esc_char(ch: char) -> Seq<char> {
    if ch == '"' {
        seq!['\\', '"']
    } else if ch == '\\' {
        seq!['\\', '\\']
    } else if ch == '\u{8}' {
        seq!['\\', 'b']
    } else if ch == '\t' {
        seq!['\\', 't']
    } else if ch == '\n' {
        seq!['\\', 'n']
    } else if ch == '\u{c}' {
        seq!['\\', 'f']
    } else if ch == '\r' {
        seq!['\\', 'r']
    } else if (ch as u32) < 32 {
        seq!['\\', 'u', '0', '0', hex_digit((ch as int) / 16), hex_digit((ch as int) % 16)]
    } else {
        seq![ch]
    }
}

/// JSON escaping of a whole string body.
pub open spec fn json_escape(s: Seq<char>) -> Seq<char>
    decreases s.len(),
{
    if s.len() == 0 {
        Seq::empty()
    } else {
        esc_char(s[0]) + json_escape(s.drop_first())
    }
}

fn hex_digit_x(v: u32) -> (r: char)
    requires
        v < 16,
    ensures
        r == hex_digit(v as int),
{
    if v == 0 {
        '0'
    } else if v == 1 {
        '1'
    } else if v == 2 {
        '2'
    } else if v == 3 {
        '3'
    } else if v == 4 {
        '4'
    } else if v == 5 {
        '5'
    } else if v == 6 {
        '6'
    } else if v == 7 {
        '7'
    } else if v == 8 {
        '8'
    } else if v == 9 {
        '9'
    } else if v == 10 {
        'a'
    } else if v == 11 {
        'b'
    } else if v == 12 {
        'c'
    } else if v == 13 {
        'd'
    } else if v == 14 {
        'e'
    } else {
        'f'
    }
}

fn escape_into(out: &mut Vec<char>, s: &[char])
    ensures
        final(out)@ == old(out)@ + json_escape(s@),
{
    let ghost base = out@;
    let mut i: usize = 0;
    proof {
        assert(s@.skip(0) =~= s@);
        assert(base + json_escape(Seq::<char>::empty()) =~= base);
    }
    while i < s.len()
        invariant
            i <= s@.len(),
            base + json_escape(s@) == out@ + json_escape(s@.skip(i as int)),
        decreases s@.len() - i,
    {
        let ghost pre = out@;
        let ch = s[i];
        proof {
            assert(s@.skip(i as int)[0] == s@[i as int]);
            assert(s@.skip(i as int).drop_first() =~= s@.skip(i as int + 1));
        }
        if ch == '"' {
            out.push('\\');
            out.push('"');
        } else if ch == '\\' {
            out.push('\\');
            out.push('\\');
        } else if ch == '\u{8}' {
            out.push('\\');
            out.push('b');
        } else if ch == '\t' {
            out.push('\\');
            out.push('t');
        } else if ch == '\n' {
            out.push('\\');
            out.push('n');
        } else if ch == '\u{c}' {
            out.push('\\');
            out.push('f');
        } else if ch == '\r' {
            out.push('\\');
            out.push('r');
        } else if (ch as u32) < 32 {
            let u: u32 = ch as u32;
            out.push('\\');
            out.push('u');
            out.push('0');
            out.push('0');
            out.push(hex_digit_x(u / 16));
            out.push(hex_digit_x(u % 16));
            proof {
                assert((u / 16) as int == (ch as int) / 16 && (u % 16) as int == (ch as int)
                    % 16) by (nonlinear_arith)
                    requires
                        u == ch as u32,
                        u < 32,
                ;
                assert(esc_char(ch) =~= seq![
                    '\\',
                    'u',
                    '0',
                    '0',
                    hex_digit((ch as int) / 16),
                    hex_digit((ch as int) % 16),
                ]);
            }
        } else {
            out.push(ch);
        }
        proof {
            assert(out@ =~= pre + esc_char(s@[i as int]));
            assert(pre + esc_char(s@[i as int]) + json_escape(s@.skip(i as int + 1)) =~= pre
                + json_escape(s@.skip(i as int)));
        }
        i += 1;
    }
    proof {
        assert(s@.skip(i as int) =~= Seq::<char>::empty());
        assert(out@ + json_escape(Seq::<char>::empty()) =~= out@);
    }
}

fn append_chars(out: &mut Vec<char>, t: &[char])
    ensures
        final(out)@ == old(out)@ + t@,
{
    let ghost base = out@;
    let mut i: usize = 0;
    while i < t.len()
        invariant
            i <= t@.len(),
            out@ == base + t@.subrange(0, i as int),
        decreases t@.len() - i,
    {
        out.push(t[i]);
        proof {
            assert(base + t@.subrange(0, i as int) + seq![t@[i as int]] =~= base + t@.subrange(
                0,
                i as int + 1,
            ));
        }
        i += 1;
    }
    proof {
        assert(out@ =~= base + t@);
    }
}

/// The event frame carrying one scripted command:
/// `42["input",{"input":"<escaped command>"}]`.
pub open spec fn input_frame(cmd: Seq<char>) -> Seq<char> {
    "42[\"input\",{\"input\":\""@ + json_escape(cmd) + "\"}]"@
}

/// Wraps a command in the input event frame.
pub fn encode_input_frame(cmd: &[char]) -> (r: Vec<char>)
    ensures
        r@ == input_frame(cmd@),
{
    let mut out = str_to_chars("42[\"input\",{\"input\":\"");
    escape_into(&mut out, cmd);
    let tail = str_to_chars("\"}]");
    append_chars(&mut out, tail.as_slice());
    out
}

/// The namespace-join frame sent right after a successful handshake.
pub fn join_frame() -> (r: Vec<char>)
    ensures
        r@ == "40"@,
{
    str_to_chars("40")
}

/// The heartbeat reply to the server's ping.
pub fn pong_frame() -> (r: Vec<char>)
    ensures
        r@ == "3"@,
{
    str_to_chars("3")
}

/// The stop event issued when the namespace is joined.
pub fn stop_frame() -> (r: Vec<char>)
    ensures
        r@ == "42[\"stop\",{}]"@,
{
    str_to_chars("42[\"stop\",{}]")
}

/// The start event issued after the settle delay.
pub fn start_frame() -> (r: Vec<char>)
    ensures
        r@ == "42[\"start\",{}]"@,
{
    str_to_chars("42[\"start\",{}]")
}

/// The start event's one-shot retry form.
pub fn retry_start_frame() -> (r: Vec<char>)
    ensures
        r@ == "42[\"start\",{\"args\":\"\"}]"@,
{
    str_to_chars("42[\"start\",{\"args\":\"\"}]")
}

/// How the session driver routes an inbound frame.
#[derive(Debug, PartialEq, Eq, Structural, Clone, Copy)]
pub enum FrameKind {
    /// The server's heartbeat ping, exactly the frame `2`.
    Ping,
    /// The namespace-join acknowledgement, any frame starting `40`.
    NamespaceJoin,
    /// An application event, any frame starting `42`.
    Event,
    /// Anything else; ignored.
    Other,
}

/// Frame classification, checked in the driver's order.
pub open spec fn spec_frame_kind(t: Seq<char>) -> FrameKind {
    if t == "2"@ {
        FrameKind::Ping
    } else if t.len() >= 2 && t.subrange(0, 2) == "40"@ {
        FrameKind::NamespaceJoin
    } else if t.len() >= 2 && t.subrange(0, 2) == "42"@ {
        FrameKind::Event
    } else {
        FrameKind::Other
    }
}

/// Classifies one inbound frame.
pub fn classify_frame(t: &[char]) -> (r: FrameKind)
    ensures
        r == spec_frame_kind(t@),
{
    proof {
        reveal_strlit("2");
        reveal_strlit("40");
        reveal_strlit("42");
    }
    if t.len() == 1 && t[0] == '2' {
        proof {
            assert(t@ =~= "2"@);
        }
        return FrameKind::Ping;
    }
    proof {
        assert(t@ != "2"@) by {
            if t@ == "2"@ {
                assert(t@.len() == 1);
                assert(t@[0] == '2');
            }
        }
    }
    if t.len() >= 2 && t[0] == '4' && t[1] == '0' {
        proof {
            assert(t@.subrange(0, 2) =~= "40"@);
        }
        return FrameKind::NamespaceJoin;
    }
    if t.len() >= 2 && t[0] == '4' && t[1] == '2' {
        proof {
            assert(t@.subrange(0, 2)[0] == t@[0]);
            assert(t@.subrange(0, 2)[1] == t@[1]);
            assert(t@.subrange(0, 2) != "40"@);
            assert(t@.subrange(0, 2) =~= "42"@);
        }
        return FrameKind::Event;
    }
    proof {
        if t@.len() >= 2 {
            assert(t@.subrange(0, 2)[0] == t@[0]);
            assert(t@.subrange(0, 2)[1] == t@[1]);
            assert(t@.subrange(0, 2) != "40"@);
            assert(t@.subrange(0, 2) != "42"@);
        }
    }
    FrameKind::Other
}

} // verus!
