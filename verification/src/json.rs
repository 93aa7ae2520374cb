//! The structured renderer: encodes the session collection as one JSON
//! document. A command run encodes as an object holding its derived
//! single-line command string and its working directory (the empty string
//! when absent); every other run kind encodes as its descriptive string.

use vstd::prelude::*;
use vstd::string::StrSliceExecFns;
use vstd::string::StringExecFns;

use crate::model::{Run, RunCommand, Session, SessionDuration, Tab};
use crate::render::{command_line, display_run, display_run_text};
use crate::text::{dec_digit, dec_rep, push_char, push_u64};

verus! {

/// The lower-case hexadecimal digit for a value below sixteen.
pub open spec fn hex_digit(d: int) -> char {
    if d < 10 {
        dec_digit(d)
    } else if d == 10 {
        'a'
    } else if d == 11 {
        'b'
    } else if d == 12 {
        'c'
    } else if d == 13 {
        'd'
    } else if d == 14 {
        'e'
    } else {
        'f'
    }
}

/// The escape of one character inside a JSON string: quote and backslash get
/// a backslash, the control characters with a short name get it, the other
/// control characters get the `\u00XX` form, and every other character
/// stands as itself.
pub open spec fn esc_char(c: char) -> Seq<char> {
    if c == '"' {
        seq!['\\', '"']
    } else if c == '\\' {
        seq!['\\', '\\']
    } else if c == '\u{8}' {
        seq!['\\', 'b']
    } else if c == '\u{9}' {
        seq!['\\', 't']
    } else if c == '\u{A}' {
        seq!['\\', 'n']
    } else if c == '\u{C}' {
        seq!['\\', 'f']
    } else if c == '\u{D}' {
        seq!['\\', 'r']
    } else if (c as u32) < 0x20 {
        seq![
            '\\',
            'u',
            '0',
            '0',
            hex_digit(c as u32 as int / 16),
            hex_digit(c as u32 as int % 16),
        ]
    } else {
        seq![c]
    }
}

/// A character sequence escaped for a JSON string.
pub open spec fn esc(s: Seq<char>) -> Seq<char>
    decreases s.len(),
{
    if s.len() == 0 {
        Seq::empty()
    } else {
        esc(s.drop_last()) + esc_char(s.last())
    }
}

/// A JSON string: the escaped characters between double quotes.
pub open spec fn json_string(s: Seq<char>) -> Seq<char> {
    "\""@ + esc(s) + "\""@
}

/// A JSON boolean literal.
pub open spec fn json_bool(b: bool) -> Seq<char> {
    if b {
        "true"@
    } else {
        "false"@
    }
}

/// A command's working directory as a string: empty when absent, never null
/// or omitted.
pub open spec fn cwd_text(cwd: Option<String>) -> Seq<char> {
    match cwd {
        Some(p) => p@,
        None => Seq::empty(),
    }
}

/// One run's structured encoding: a command becomes an object with its
/// command line and its working directory; every other kind becomes its
/// descriptive string, non-colorized.
pub open spec fn run_json(r: Run) -> Seq<char> {
    match r {
        Run::Command(c) => "{\"command\":"@ + json_string(command_line(c)) + ",\"cwd\":"@
            + json_string(cwd_text(c.cwd)) + "}"@,
        _ => json_string(display_run_text(r, false)),
    }
}

/// Comma-joined run encodings.
pub open spec fn comma_runs(rs: Seq<Run>) -> Seq<char>
    decreases rs.len(),
{
    if rs.len() == 0 {
        Seq::empty()
    } else if rs.len() == 1 {
        run_json(rs[0])
    } else {
        comma_runs(rs.drop_last()) + ","@ + run_json(rs.last())
    }
}

/// One tab's structured encoding; an absent name stays absent (null), never
/// the placeholder label.
pub open spec fn tab_json(t: Tab) -> Seq<char> {
    "{\"name\":"@ + (match t.name {
        Some(n) => json_string(n@),
        None => "null"@,
    }) + ",\"commands\":["@ + comma_runs(t.commands@) + "]}"@
}

/// Comma-joined tab encodings.
pub open spec fn comma_tabs(ts: Seq<Tab>) -> Seq<char>
    decreases ts.len(),
{
    if ts.len() == 0 {
        Seq::empty()
    } else if ts.len() == 1 {
        tab_json(ts[0])
    } else {
        comma_tabs(ts.drop_last()) + ","@ + tab_json(ts.last())
    }
}

/// A duration's structured encoding: whole seconds and the nanosecond part.
pub open spec fn duration_json(d: SessionDuration) -> Seq<char> {
    "{\"secs\":"@ + dec_rep(d.secs as int) + ",\"nanos\":"@ + dec_rep(d.nanos as int) + "}"@
}

/// One session's structured encoding.
pub open spec fn session_json(s: Session) -> Seq<char> {
    "{\"name\":"@ + json_string(s.name@) + ",\"tabs\":["@ + comma_tabs(s.tabs@)
        + "],\"timestamp\":"@ + duration_json(s.timestamp) + ",\"is_current\":"@ + json_bool(
        s.is_current,
    ) + ",\"is_active\":"@ + json_bool(s.is_active) + "}"@
}

/// Comma-joined session encodings.
pub open spec fn comma_sessions(ss: Seq<Session>) -> Seq<char>
    decreases ss.len(),
{
    if ss.len() == 0 {
        Seq::empty()
    } else if ss.len() == 1 {
        session_json(ss[0])
    } else {
        comma_sessions(ss.drop_last()) + ","@ + session_json(ss.last())
    }
}

/// The whole collection's structured encoding: one JSON array.
pub open spec fn sessions_json(ss: Seq<Session>) -> Seq<char> {
    "["@ + comma_sessions(ss) + "]"@
}

/// The lower-case hexadecimal digit character.
fn hex_char(d: u8) -> (c: char)
    requires
        d < 16,
    ensures
        c == hex_digit(d as int),
{
    match d {
        0 => '0',
        1 => '1',
        2 => '2',
        3 => '3',
        4 => '4',
        5 => '5',
        6 => '6',
        7 => '7',
        8 => '8',
        9 => '9',
        10 => 'a',
        11 => 'b',
        12 => 'c',
        13 => 'd',
        14 => 'e',
        _ => 'f',
    }
}

/// Appends the characters of `s`, escaped for a JSON string.
fn append_escaped(out: &mut String, s: &str)
    ensures
        final(out)@ == old(out)@ + esc(s@),
{
    let n = s.unicode_len();
    let mut i: usize = 0;
    while i < n
        invariant
            n == s@.len(),
            i <= n,
            out@ == old(out)@ + esc(s@.take(i as int)),
        decreases n - i,
    {
        let c = s.get_char(i);
        if c == '"' {
            out.append("\\\"");
            proof {
                reveal_strlit("\\\"");
            }
        } else if c == '\\' {
            out.append("\\\\");
            proof {
                reveal_strlit("\\\\");
            }
        } else if c == '\u{8}' {
            out.append("\\b");
            proof {
                reveal_strlit("\\b");
            }
        } else if c == '\u{9}' {
            out.append("\\t");
            proof {
                reveal_strlit("\\t");
            }
        } else if c == '\u{A}' {
            out.append("\\n");
            proof {
                reveal_strlit("\\n");
            }
        } else if c == '\u{C}' {
            out.append("\\f");
            proof {
                reveal_strlit("\\f");
            }
        } else if c == '\u{D}' {
            out.append("\\r");
            proof {
                reveal_strlit("\\r");
            }
        } else if (c as u32) < 0x20 {
            out.append("\\u00");
            proof {
                reveal_strlit("\\u00");
            }
            let code = c as u32;
            push_char(out, hex_char((code / 16) as u8));
            push_char(out, hex_char((code % 16) as u8));
        } else {
            push_char(out, c);
        }
        proof {
            assert(s@.take(i as int + 1).drop_last() =~= s@.take(i as int));
            assert(s@.take(i as int + 1).last() == s@[i as int]);
            assert(out@ =~= old(out)@ + esc(s@.take(i as int + 1)));
        }
        i += 1;
    }
    proof {
        assert(s@.take(s@.len() as int) =~= s@);
    }
}

/// Appends a JSON string: the escaped characters between double quotes.
fn append_json_string(out: &mut String, s: &str)
    ensures
        final(out)@ == old(out)@ + json_string(s@),
{
    out.append("\"");
    append_escaped(out, s);
    out.append("\"");
    proof {
        assert(out@ =~= old(out)@ + json_string(s@));
    }
}

/// Appends one run's structured encoding.
fn append_run_json(out: &mut String, run: &Run)
    ensures
        final(out)@ == old(out)@ + run_json(*run),
{
    match run {
        Run::Command(c) => {
            out.append("{\"command\":");
            let mut line = String::new();
            line.append(c.command.as_str());
            line.append(" ");
            crate::render::append_args(&mut line, &c.args);
            append_json_string(out, line.as_str());
            out.append(",\"cwd\":");
            match &c.cwd {
                Some(p) => append_json_string(out, p.as_str()),
                None => append_json_string(out, ""),
            }
            out.append("}");
            proof {
                reveal_strlit("");
                assert(""@ =~= Seq::<char>::empty());
                assert(out@ =~= old(out)@ + run_json(*run));
            }
        },
        _ => {
            let line = display_run(run, false);
            append_json_string(out, line.as_str());
            proof {
                assert(out@ =~= old(out)@ + run_json(*run));
            }
        },
    }
}

/// Appends one tab's structured encoding.
fn append_tab_json(out: &mut String, tab: &Tab)
    ensures
        final(out)@ == old(out)@ + tab_json(*tab),
{
    out.append("{\"name\":");
    match &tab.name {
        Some(n) => append_json_string(out, n.as_str()),
        None => out.append("null"),
    }
    out.append(",\"commands\":[");
    let ghost mid = out@;
    let mut k: usize = 0;
    while k < tab.commands.len()
        invariant
            k <= tab.commands@.len(),
            out@ == mid + comma_runs(tab.commands@.take(k as int)),
        decreases tab.commands@.len() - k,
    {
        if k > 0 {
            out.append(",");
        }
        append_run_json(out, &tab.commands[k]);
        proof {
            let rs = tab.commands@;
            assert(rs.take(k as int + 1).drop_last() =~= rs.take(k as int));
            assert(rs.take(k as int + 1).last() == rs[k as int]);
            assert(out@ =~= mid + comma_runs(rs.take(k as int + 1)));
        }
        k += 1;
    }
    out.append("]}");
    proof {
        assert(tab.commands@.take(tab.commands@.len() as int) =~= tab.commands@);
        assert(out@ =~= old(out)@ + tab_json(*tab));
    }
}

/// Appends one session's structured encoding.
#[verifier::rlimit(60)]
fn append_session_json(out: &mut String, session: &Session)
    ensures
        final(out)@ == old(out)@ + session_json(*session),
{
    out.append("{\"name\":");
    append_json_string(out, session.name.as_str());
    out.append(",\"tabs\":[");
    let ghost mid = out@;
    let mut k: usize = 0;
    while k < session.tabs.len()
        invariant
            k <= session.tabs@.len(),
            out@ == mid + comma_tabs(session.tabs@.take(k as int)),
        decreases session.tabs@.len() - k,
    {
        if k > 0 {
            out.append(",");
        }
        append_tab_json(out, &session.tabs[k]);
        proof {
            let ts = session.tabs@;
            assert(ts.take(k as int + 1).drop_last() =~= ts.take(k as int));
            assert(ts.take(k as int + 1).last() == ts[k as int]);
            assert(out@ =~= mid + comma_tabs(ts.take(k as int + 1)));
        }
        k += 1;
    }
    out.append("],\"timestamp\":{\"secs\":");
    push_u64(out, session.timestamp.secs);
    out.append(",\"nanos\":");
    push_u64(out, session.timestamp.nanos as u64);
    out.append("}");
    if session.is_current {
        out.append(",\"is_current\":true");
    } else {
        out.append(",\"is_current\":false");
    }
    if session.is_active {
        out.append(",\"is_active\":true}");
    } else {
        out.append(",\"is_active\":false}");
    }
    proof {
        assert(session.tabs@.take(session.tabs@.len() as int) =~= session.tabs@);
        reveal_strlit(",\"is_current\":true");
        reveal_strlit(",\"is_current\":false");
        reveal_strlit(",\"is_current\":");
        reveal_strlit(",\"is_active\":true}");
        reveal_strlit(",\"is_active\":false}");
        reveal_strlit(",\"is_active\":");
        reveal_strlit("true");
        reveal_strlit("false");
        reveal_strlit("}");
        reveal_strlit("],\"timestamp\":{\"secs\":");
        reveal_strlit("],\"timestamp\":");
        reveal_strlit("{\"secs\":");
        reveal_strlit(",\"nanos\":");
        assert(out@ =~= old(out)@ + session_json(*session));
    }
}

/// Renders the whole collection as one structured document.
pub fn render_sessions_json(sessions: &Vec<Session>) -> (r: String)
    ensures
        r@ == sessions_json(sessions@),
{
    let mut out = String::new();
    out.append("[");
    let ghost mid = out@;
    let mut k: usize = 0;
    while k < sessions.len()
        invariant
            k <= sessions@.len(),
            out@ == mid + comma_sessions(sessions@.take(k as int)),
        decreases sessions@.len() - k,
    {
        if k > 0 {
            out.append(",");
        }
        append_session_json(&mut out, &sessions[k]);
        proof {
            let ss = sessions@;
            assert(ss.take(k as int + 1).drop_last() =~= ss.take(k as int));
            assert(ss.take(k as int + 1).last() == ss[k as int]);
            assert(out@ =~= mid + comma_sessions(ss.take(k as int + 1)));
        }
        k += 1;
    }
    out.append("]");
    proof {
        assert(sessions@.take(sessions@.len() as int) =~= sessions@);
        assert(out@ =~= sessions_json(sessions@));
    }
    out
}

/// The value of a lower-case hexadecimal digit, or a negative number for any
/// other character.
pub open spec fn hex_val(c: char) -> int {
    if c == '0' {
        0
    } else if c == '1' {
        1
    } else if c == '2' {
        2
    } else if c == '3' {
        3
    } else if c == '4' {
        4
    } else if c == '5' {
        5
    } else if c == '6' {
        6
    } else if c == '7' {
        7
    } else if c == '8' {
        8
    } else if c == '9' {
        9
    } else if c == 'a' {
        10
    } else if c == 'b' {
        11
    } else if c == 'c' {
        12
    } else if c == 'd' {
        13
    } else if c == 'e' {
        14
    } else if c == 'f' {
        15
    } else {
        -1
    }
}

/// The character a short escape stands for, when the escape is a known one.
pub open spec fn short_unescape(e: char) -> Option<char> {
    if e == '"' {
        Some('"')
    } else if e == '\\' {
        Some('\\')
    } else if e == 'b' {
        Some('\u{8}')
    } else if e == 't' {
        Some('\u{9}')
    } else if e == 'n' {
        Some('\u{A}')
    } else if e == 'f' {
        Some('\u{C}')
    } else if e == 'r' {
        Some('\u{D}')
    } else {
        None
    }
}

/// Parses the body of a JSON string up to and including its closing quote:
/// yields the unescaped content and whatever follows the quote. Unknown
/// escapes, unescaped control characters and an unterminated string fail.
pub open spec fn take_str(s: Seq<char>) -> Option<(Seq<char>, Seq<char>)>
    decreases s.len(),
{
    if s.len() == 0 {
        None
    } else if s[0] == '"' {
        Some((Seq::empty(), s.drop_first()))
    } else if s[0] == '\\' {
        if s.len() < 2 {
            None
        } else if s[1] == 'u' {
            if s.len() < 6 {
                None
            } else if s[2] == '0' && s[3] == '0' && hex_val(s[4]) >= 0 && hex_val(s[5]) >= 0 {
                match take_str(s.skip(6)) {
                    Some(tr) => Some(
                        (seq![(((hex_val(s[4]) * 16 + hex_val(s[5])) as u32) as char)] + tr.0, tr.1),
                    ),
                    None => None,
                }
            } else {
                None
            }
        } else {
            match short_unescape(s[1]) {
                Some(c) => match take_str(s.skip(2)) {
                    Some(tr) => Some((seq![c] + tr.0, tr.1)),
                    None => None,
                },
                None => None,
            }
        }
    } else if (s[0] as u32) < 0x20 {
        None
    } else {
        match take_str(s.drop_first()) {
            Some(tr) => Some((seq![s[0]] + tr.0, tr.1)),
            None => None,
        }
    }
}

/// Decodes a command run's structured object back into its two fields: the
/// command line and the working directory.
pub open spec fn decode_command(s: Seq<char>) -> Option<(Seq<char>, Seq<char>)> {
    let p1 = "{\"command\":\""@;
    let p2 = ",\"cwd\":\""@;
    if s.len() >= p1.len() && s.take(p1.len() as int) == p1 {
        match take_str(s.skip(p1.len() as int)) {
            Some(cr) => {
                if cr.1.len() >= p2.len() && cr.1.take(p2.len() as int) == p2 {
                    match take_str(cr.1.skip(p2.len() as int)) {
                        Some(wr) => if wr.1 == "}"@ {
                            Some((cr.0, wr.0))
                        } else {
                            None
                        },
                        None => None,
                    }
                } else {
                    None
                }
            },
            None => None,
        }
    } else {
        None
    }
}

/// The escape of a non-empty sequence starts with its first character's
/// escape.
proof fn lemma_esc_front(x: Seq<char>)
    requires
        x.len() > 0,
    ensures
        esc(x) == esc_char(x[0]) + esc(x.drop_first()),
    decreases x.len(),
{
    if x.len() == 1 {
        assert(x.drop_last() =~= Seq::<char>::empty());
        assert(x.drop_first() =~= Seq::<char>::empty());
        assert(esc(x) =~= esc_char(x[0]) + esc(x.drop_first()));
    } else {
        lemma_esc_front(x.drop_last());
        assert(x.drop_last()[0] == x[0]);
        assert(x.drop_last().drop_first() =~= x.drop_first().drop_last());
        assert(x.drop_first().last() == x.last());
        assert(x.drop_first().len() > 0);
        assert(esc(x) =~= esc_char(x[0]) + esc(x.drop_first()));
    }
}

/// Parsing an escaped sequence followed by a closing quote yields the
/// sequence back, exactly, with the remainder untouched.
proof fn lemma_take_str_esc(x: Seq<char>, rest: Seq<char>)
    ensures
        take_str(esc(x) + "\""@ + rest) == Some((x, rest)),
    decreases x.len(),
{
    reveal_strlit("\"");
    let s = esc(x) + "\""@ + rest;
    if x.len() == 0 {
        assert(esc(x) =~= Seq::<char>::empty());
        assert(s[0] == '"');
        assert(s.drop_first() =~= rest);
    } else {
        lemma_esc_front(x);
        let c = x[0];
        let tail = esc(x.drop_first()) + "\""@ + rest;
        assert(s =~= esc_char(c) + tail);
        lemma_take_str_esc(x.drop_first(), rest);
        assert(seq![c] + x.drop_first() =~= x);
        if c == '"' || c == '\\' || c == '\u{8}' || c == '\u{9}' || c == '\u{A}' || c == '\u{C}'
            || c == '\u{D}' {
            assert(s[0] == '\\');
            assert(short_unescape(s[1]) == Some(c));
            assert(s.skip(2) =~= tail);
        } else if (c as u32) < 0x20 {
            assert(s[0] == '\\' && s[1] == 'u' && s[2] == '0' && s[3] == '0');
            let hi = c as u32 as int / 16;
            let lo = c as u32 as int % 16;
            assert(s[4] == hex_digit(hi) && s[5] == hex_digit(lo));
            assert(hex_val(hex_digit(hi)) == hi);
            assert(hex_val(hex_digit(lo)) == lo);
            assert(hex_val(s[4]) * 16 + hex_val(s[5]) == c as u32 as int);
            vstd::utf8::char_u32_cast(c, c as u32);
            assert(((c as u32 as int) as u32) == c as u32);
            assert((((c as u32 as int) as u32) as char) == c);
            assert(s.skip(6) =~= tail);
        } else {
            assert(s[0] == c);
            assert(s.drop_first() =~= tail);
        }
    }
}

/// Structured-rendering a command run and decoding the object back yields
/// exactly the derived command line and the working directory, the empty
/// string when the command has none.
pub proof fn lemma_command_round_trip(c: RunCommand)
    ensures
        decode_command(run_json(Run::Command(c))) == Some((command_line(c), cwd_text(c.cwd))),
{
    reveal_strlit("{\"command\":");
    reveal_strlit("{\"command\":\"");
    reveal_strlit(",\"cwd\":");
    reveal_strlit(",\"cwd\":\"");
    reveal_strlit("\"");
    reveal_strlit("}");
    let cmd = command_line(c);
    let cwd = cwd_text(c.cwd);
    let s = run_json(Run::Command(c));
    let p1 = "{\"command\":\""@;
    let p2 = ",\"cwd\":\""@;
    let r1 = p2 + (esc(cwd) + "\""@ + "}"@);
    assert(s =~= p1 + (esc(cmd) + "\""@ + r1));
    lemma_take_str_esc(cmd, r1);
    assert(s.take(p1.len() as int) =~= p1);
    assert(s.skip(p1.len() as int) =~= esc(cmd) + "\""@ + r1);
    assert(take_str(s.skip(p1.len() as int)) == Some((cmd, r1)));
    assert(r1.take(p2.len() as int) =~= p2);
    assert(r1.skip(p2.len() as int) =~= esc(cwd) + "\""@ + "}"@);
    lemma_take_str_esc(cwd, "}"@);
    assert(take_str(r1.skip(p2.len() as int)) == Some((cwd, "}"@)));
    assert(decode_command(s) == Some((cmd, cwd)));
}

} // verus!
