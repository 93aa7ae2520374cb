//! The two text renderers: colorized and plain. Both print, per session, a
//! header line with the name and the elapsed time, then the tabs with their
//! runs; they share the run-formatting rule and differ only in decoration.

use vstd::prelude::*;
use vstd::string::StringExecFns;

use crate::model::{Run, RunCommand, RunPluginOrAlias, Session, Tab};
use crate::text::{humanize_duration, humanized, push_char, str_eq};

verus! {

/// Arguments joined by single spaces.
pub open spec fn args_joined(args: Seq<Seq<char>>) -> Seq<char>
    decreases args.len(),
{
    if args.len() == 0 {
        Seq::empty()
    } else if args.len() == 1 {
        args[0]
    } else {
        args_joined(args.drop_last()) + " "@ + args.last()
    }
}

/// A command's single-line form: the program, one space, and the
/// space-joined arguments.
pub open spec fn command_line(c: RunCommand) -> Seq<char> {
    c.command@ + " "@ + args_joined(c.args.deep_view())
}

/// A run-line label, wrapped in a color escape when formatting is on.
pub open spec fn title_text(title: Seq<char>, formatted: bool) -> Seq<char> {
    if formatted {
        "\u{1b}[35;1m"@ + title + "\u{1b}[m"@
    } else {
        title
    }
}

/// A plugin reference's display: the direct location's string form, or the
/// alias name.
pub open spec fn plugin_text(p: RunPluginOrAlias) -> Seq<char> {
    match p {
        RunPluginOrAlias::RunPlugin { location } => location@,
        RunPluginOrAlias::Alias { name } => name@,
    }
}

/// The shared run-formatting rule: a fixed label per variant, then the
/// payload.
pub open spec fn display_run_text(r: Run, formatted: bool) -> Seq<char> {
    match r {
        Run::Command(c) => title_text("Running:"@, formatted) + " "@ + command_line(c),
        Run::EditFile(path) => title_text("File:"@, formatted) + " "@ + path@,
        Run::Cwd(path) => title_text("CWD:"@, formatted) + " "@ + path@,
        Run::Plugin(p) => title_text("Plugin:"@, formatted) + " "@ + plugin_text(p),
    }
}

/// A tab's displayed label: its name, or the fixed placeholder when it has
/// none.
pub open spec fn tab_label(name: Option<String>) -> Seq<char> {
    match name {
        Some(n) => n@,
        None => "<Unnamed Tab>"@,
    }
}

/// One run's output line; the colorized renderer indents it by one space.
pub open spec fn run_line(r: Run, formatted: bool) -> Seq<char> {
    if formatted {
        " "@ + display_run_text(r, true) + "\n"@
    } else {
        display_run_text(r, false) + "\n"@
    }
}

/// The lines of a tab's runs, in order.
pub open spec fn runs_text(rs: Seq<Run>, formatted: bool) -> Seq<char>
    decreases rs.len(),
{
    if rs.len() == 0 {
        Seq::empty()
    } else {
        runs_text(rs.drop_last(), formatted) + run_line(rs.last(), formatted)
    }
}

/// A tab's output: its label (colorized when formatting is on), a colon, and
/// its run lines.
pub open spec fn tab_text(t: Tab, formatted: bool) -> Seq<char> {
    (if formatted {
        "\u{1b}[36;1m"@ + tab_label(t.name) + "\u{1b}[m"@
    } else {
        tab_label(t.name)
    }) + ":\n"@ + runs_text(t.commands@, formatted)
}

/// The output of a sequence of tabs, in order.
pub open spec fn tabs_text(ts: Seq<Tab>, formatted: bool) -> Seq<char>
    decreases ts.len(),
{
    if ts.len() == 0 {
        Seq::empty()
    } else {
        tabs_text(ts.drop_last(), formatted) + tab_text(ts.last(), formatted)
    }
}

/// The current-session marker, appended undecorated to the header line.
pub open spec fn current_marker(is_current: bool) -> Seq<char> {
    if is_current {
        " (current)"@
    } else {
        Seq::empty()
    }
}

/// A session's header line: its name and the elapsed time since creation,
/// colorized when formatting is on, plus the current-session marker.
pub open spec fn session_header(s: Session, formatted: bool) -> Seq<char> {
    if formatted {
        "\u{1b}[32;1m"@ + s.name@ + "\u{1b}[m"@ + " [Created \u{1b}[35;1m"@ + humanized(
            s.timestamp.secs,
            s.timestamp.nanos,
        ) + "\u{1b}[m ago]"@ + current_marker(s.is_current) + "\n"@
    } else {
        s.name@ + " Created "@ + humanized(s.timestamp.secs, s.timestamp.nanos) + " ago"@
            + current_marker(s.is_current) + "\n"@
    }
}

/// The fixed notice for a session with no tabs; the colorized renderer
/// indents it.
pub open spec fn no_commands_notice(formatted: bool) -> Seq<char> {
    if formatted {
        "  No running commands\n"@
    } else {
        "No running commands\n"@
    }
}

/// A session's whole output: the header, then the tabs (or the no-commands
/// notice), and, in colorized form, a blank separator line.
pub open spec fn session_text(s: Session, formatted: bool) -> Seq<char> {
    session_header(s, formatted) + (if s.tabs@.len() == 0 {
        no_commands_notice(formatted)
    } else {
        tabs_text(s.tabs@, formatted)
    }) + (if formatted {
        "\n"@
    } else {
        Seq::empty()
    })
}

/// The output of a whole collection, session by session.
pub open spec fn sessions_text(ss: Seq<Session>, formatted: bool) -> Seq<char>
    decreases ss.len(),
{
    if ss.len() == 0 {
        Seq::empty()
    } else {
        sessions_text(ss.drop_last(), formatted) + session_text(ss.last(), formatted)
    }
}

/// What an exact-name lookup prints: the first session whose name matches,
/// or the not-found notice when none does.
pub open spec fn session_by_name_text(ss: Seq<Session>, name: Seq<char>, formatted: bool) -> Seq<
    char,
>
    decreases ss.len(),
{
    if ss.len() == 0 {
        "No session found with the name "@ + name + "\n"@
    } else if ss[0].name@ == name {
        session_text(ss[0], formatted)
    } else {
        session_by_name_text(ss.drop_first(), name, formatted)
    }
}

/// Displays one plugin reference: the direct location's string form, or the
/// alias name.
pub fn display_plugin_or_alias(plugin_or_alias: &RunPluginOrAlias) -> (r: String)
    ensures
        r@ == plugin_text(*plugin_or_alias),
{
    match plugin_or_alias {
        RunPluginOrAlias::RunPlugin { location } => location.clone(),
        RunPluginOrAlias::Alias { name } => name.clone(),
    }
}

/// Appends a run-line label, color-wrapped when formatting is on.
fn append_title(out: &mut String, title: &str, formatted: bool)
    ensures
        final(out)@ == old(out)@ + title_text(title@, formatted),
{
    if formatted {
        out.append("\u{1b}[35;1m");
        out.append(title);
        out.append("\u{1b}[m");
        proof {
            assert(out@ =~= old(out)@ + title_text(title@, true));
        }
    } else {
        out.append(title);
    }
}

/// Appends the space-joined arguments.
pub(crate) fn append_args(out: &mut String, args: &Vec<String>)
    ensures
        final(out)@ == old(out)@ + args_joined(args.deep_view()),
{
    let ghost all = args.deep_view();
    let mut k: usize = 0;
    while k < args.len()
        invariant
            k <= args@.len(),
            all == args.deep_view(),
            all.len() == args@.len(),
            out@ == old(out)@ + args_joined(all.take(k as int)),
        decreases args@.len() - k,
    {
        if k > 0 {
            out.append(" ");
        }
        out.append(args[k].as_str());
        proof {
            assert(all.take(k as int + 1).last() == all[k as int]);
            assert(all[k as int] == args@[k as int]@);
            if k == 0 {
                assert(args_joined(all.take(1)) == all.take(1)[0]);
                assert(out@ =~= old(out)@ + args_joined(all.take(1)));
            } else {
                assert(all.take(k as int + 1).drop_last() =~= all.take(k as int));
                assert(args_joined(all.take(k as int + 1)) == args_joined(all.take(k as int))
                    + " "@ + all[k as int]);
                assert(out@ =~= old(out)@ + args_joined(all.take(k as int + 1)));
            }
        }
        k += 1;
    }
    proof {
        assert(all.take(all.len() as int) =~= all);
    }
}

/// Renders one run by the shared rule: a fixed label per variant, then the
/// payload; the label is colorized when formatting is on.
pub fn display_run(run: &Run, should_format: bool) -> (r: String)
    ensures
        r@ == display_run_text(*run, should_format),
{
    let mut out = String::new();
    match run {
        Run::Command(c) => {
            append_title(&mut out, "Running:", should_format);
            out.append(" ");
            out.append(c.command.as_str());
            out.append(" ");
            append_args(&mut out, &c.args);
            proof {
                assert(out@ =~= display_run_text(*run, should_format));
            }
        },
        Run::EditFile(path) => {
            append_title(&mut out, "File:", should_format);
            out.append(" ");
            out.append(path.as_str());
            proof {
                assert(out@ =~= display_run_text(*run, should_format));
            }
        },
        Run::Cwd(path) => {
            append_title(&mut out, "CWD:", should_format);
            out.append(" ");
            out.append(path.as_str());
            proof {
                assert(out@ =~= display_run_text(*run, should_format));
            }
        },
        Run::Plugin(p) => {
            append_title(&mut out, "Plugin:", should_format);
            out.append(" ");
            let t = display_plugin_or_alias(p);
            out.append(t.as_str());
            proof {
                assert(out@ =~= display_run_text(*run, should_format));
            }
        },
    }
    out
}

/// Appends a tab's run lines, in order.
fn append_runs(out: &mut String, runs: &Vec<Run>, formatted: bool)
    ensures
        final(out)@ == old(out)@ + runs_text(runs@, formatted),
{
    let mut k: usize = 0;
    while k < runs.len()
        invariant
            k <= runs@.len(),
            out@ == old(out)@ + runs_text(runs@.take(k as int), formatted),
        decreases runs@.len() - k,
    {
        if formatted {
            out.append(" ");
        }
        let line = display_run(&runs[k], formatted);
        out.append(line.as_str());
        push_char(out, '\n');
        proof {
            assert(runs@.take(k as int + 1).drop_last() =~= runs@.take(k as int));
            assert(runs@.take(k as int + 1).last() == runs@[k as int]);
            assert("\n"@ =~= seq!['\n']) by {
                reveal_strlit("\n");
            }
            assert(out@ =~= old(out)@ + runs_text(runs@.take(k as int + 1), formatted));
        }
        k += 1;
    }
    proof {
        assert(runs@.take(runs@.len() as int) =~= runs@);
    }
}

/// Appends one tab: its label and its run lines.
fn append_tab(out: &mut String, tab: &Tab, formatted: bool)
    ensures
        final(out)@ == old(out)@ + tab_text(*tab, formatted),
{
    if formatted {
        out.append("\u{1b}[36;1m");
    }
    match &tab.name {
        Some(n) => out.append(n.as_str()),
        None => out.append("<Unnamed Tab>"),
    }
    if formatted {
        out.append("\u{1b}[m");
    }
    out.append(":\n");
    append_runs(out, &tab.commands, formatted);
    proof {
        assert(out@ =~= old(out)@ + tab_text(*tab, formatted));
    }
}

/// Appends one session's whole output.
#[verifier::rlimit(60)]
fn append_session(out: &mut String, session: &Session, formatted: bool)
    requires
        session.wf(),
    ensures
        final(out)@ == old(out)@ + session_text(*session, formatted),
{
    if formatted {
        out.append("\u{1b}[32;1m");
        out.append(session.name.as_str());
        out.append("\u{1b}[m");
        out.append(" [Created \u{1b}[35;1m");
        let h = humanize_duration(&session.timestamp);
        out.append(h.as_str());
        out.append("\u{1b}[m ago]");
    } else {
        out.append(session.name.as_str());
        out.append(" Created ");
        let h = humanize_duration(&session.timestamp);
        out.append(h.as_str());
        out.append(" ago");
    }
    if session.is_current {
        out.append(" (current)");
    }
    out.append("\n");
    proof {
        assert(out@ =~= old(out)@ + session_header(*session, formatted));
    }
    let ghost after_header = out@;
    if session.tabs.len() == 0 {
        if formatted {
            out.append("  No running commands\n");
        } else {
            out.append("No running commands\n");
        }
    } else {
        let ghost tabs = session.tabs@;
        let mut k: usize = 0;
        while k < session.tabs.len()
            invariant
                k <= tabs.len(),
                tabs == session.tabs@,
                out@ == after_header + tabs_text(tabs.take(k as int), formatted),
            decreases tabs.len() - k,
        {
            append_tab(out, &session.tabs[k], formatted);
            proof {
                assert(tabs.take(k as int + 1).drop_last() =~= tabs.take(k as int));
                assert(tabs.take(k as int + 1).last() == tabs[k as int]);
                assert(out@ =~= after_header + tabs_text(tabs.take(k as int + 1), formatted));
            }
            k += 1;
        }
        proof {
            assert(tabs.take(tabs.len() as int) =~= tabs);
        }
    }
    if formatted {
        out.append("\n");
    }
    proof {
        assert(out@ =~= old(out)@ + session_text(*session, formatted));
    }
}

/// Renders one session in colorized form.
pub fn render_session(session: &Session) -> (r: String)
    requires
        session.wf(),
    ensures
        r@ == session_text(*session, true),
{
    let mut out = String::new();
    append_session(&mut out, session, true);
    out
}

/// Renders one session in plain form: same content, no escape sequences, no
/// indentation on the run lines.
pub fn render_unformatted_session(session: &Session) -> (r: String)
    requires
        session.wf(),
    ensures
        r@ == session_text(*session, false),
{
    let mut out = String::new();
    append_session(&mut out, session, false);
    out
}

/// Renders a whole collection, session after session, in the given form.
pub fn render_sessions(sessions: &Vec<Session>, formatted: bool) -> (r: String)
    requires
        crate::model::all_wf(sessions@),
    ensures
        r@ == sessions_text(sessions@, formatted),
{
    let mut out = String::new();
    let mut k: usize = 0;
    while k < sessions.len()
        invariant
            k <= sessions@.len(),
            crate::model::all_wf(sessions@),
            out@ == sessions_text(sessions@.take(k as int), formatted),
        decreases sessions@.len() - k,
    {
        append_session(&mut out, &sessions[k], formatted);
        proof {
            assert(sessions@.take(k as int + 1).drop_last() =~= sessions@.take(k as int));
            assert(sessions@.take(k as int + 1).last() == sessions@[k as int]);
            assert(out@ =~= sessions_text(sessions@.take(k as int + 1), formatted));
        }
        k += 1;
    }
    proof {
        assert(sessions@.take(sessions@.len() as int) =~= sessions@);
    }
    out
}

/// Renders the session with exactly the given name, in colorized or plain
/// form; when no session matches, yields the informational not-found notice
/// instead (never an error).
pub fn render_session_by_name(sessions: &Vec<Session>, session_name: &str, no_formatting: bool) -> (r:
    String)
    requires
        crate::model::all_wf(sessions@),
    ensures
        r@ == session_by_name_text(sessions@, session_name@, !no_formatting),
{
    let ghost all = sessions@;
    proof {
        assert(all.skip(0) =~= all);
    }
    let mut k: usize = 0;
    while k < sessions.len()
        invariant
            k <= all.len(),
            all == sessions@,
            crate::model::all_wf(all),
            session_by_name_text(all, session_name@, !no_formatting) == session_by_name_text(
                all.skip(k as int),
                session_name@,
                !no_formatting,
            ),
        decreases all.len() - k,
    {
        let found = str_eq(sessions[k].name.as_str(), session_name);
        proof {
            assert(all.skip(k as int)[0] == all[k as int]);
        }
        if found {
            let r;
            if no_formatting {
                r = render_unformatted_session(&sessions[k]);
            } else {
                r = render_session(&sessions[k]);
            }
            return r;
        }
        proof {
            assert(all.skip(k as int).drop_first() =~= all.skip(k as int + 1));
        }
        k += 1;
    }
    proof {
        assert(all.skip(all.len() as int) =~= Seq::<Session>::empty());
    }
    let mut out = String::new();
    out.append("No session found with the name ");
    out.append(session_name);
    out.append("\n");
    proof {
        assert(out@ =~= "No session found with the name "@ + session_name@ + "\n"@);
    }
    out
}

} // verus!
