//! The display model builder: assembles the Session -> Tab -> Run records
//! from the values the collaborators hand over (the current session's name,
//! the active-session names, and each resurrectable session's name,
//! timestamp and resolved layout).

use vstd::prelude::*;

use crate::flatten::{collect_commands_recursive, flatten_tiled, floating_runs, run_seq, tab_runs};
use crate::model::{FloatingPaneLayout, Layout, Run, Session, SessionDuration, Tab, TiledPaneLayout};

verus! {

/// One stored tab: its optional name, its tiled-pane tree and its floating
/// panes.
pub open spec fn layout_tab_entries(layout: Option<Layout>) -> Seq<
    (Option<String>, TiledPaneLayout, Vec<FloatingPaneLayout>),
> {
    match layout {
        Some(l) => l.tabs@,
        None => Seq::empty(),
    }
}

/// A built tab carries the stored tab's name unchanged and exactly the runs
/// the flattener yields for it.
pub open spec fn tab_matches(
    t: Tab,
    entry: (Option<String>, TiledPaneLayout, Vec<FloatingPaneLayout>),
) -> bool {
    &&& t.name == entry.0
    &&& t.commands@ == tab_runs(entry.1, entry.2@)
}

/// The built tabs correspond one to one, in order, to the layout's stored
/// tabs; a missing layout yields no tabs.
pub open spec fn tabs_match(tabs: Seq<Tab>, layout: Option<Layout>) -> bool {
    &&& tabs.len() == layout_tab_entries(layout).len()
    &&& forall|i: int|
        0 <= i < tabs.len() ==> #[trigger] tab_matches(tabs[i], layout_tab_entries(layout)[i])
}

/// Whether some name of the sequence has exactly these characters.
pub open spec fn contains_name_spec(names: Seq<String>, name: Seq<char>) -> bool {
    exists|i: int| 0 <= i < names.len() && names[i]@ == name
}

/// A built session against its three sources: its name and timestamp come
/// from the resurrection store, `is_active` says whether the registry lists
/// the name, `is_current` whether the name equals the current session's, and
/// its tabs are built from the resolved layout.
pub open spec fn session_matches(
    s: Session,
    source: (String, SessionDuration, Option<Layout>),
    active: Seq<String>,
    current: Seq<char>,
) -> bool {
    &&& s.name == source.0
    &&& s.timestamp == source.1
    &&& s.is_active == contains_name_spec(active, source.0@)
    &&& s.is_current == (source.0@ == current)
    &&& tabs_match(s.tabs@, source.2)
}

impl Tab {
    /// Builds one tab: the name is preserved as given (no placeholder is
    /// substituted here), and the commands are the tiled tree's runs in
    /// depth-first pre-order followed by the floating panes' runs in
    /// declaration order.
    pub fn new(
        name: Option<String>,
        tile: TiledPaneLayout,
        floating_panes: Vec<FloatingPaneLayout>,
    ) -> (t: Tab)
        ensures
            t.name == name,
            t.commands@ == tab_runs(tile, floating_panes@),
    {
        let mut commands: Vec<Run> = Vec::new();
        collect_commands_recursive(tile, &mut commands);
        let ghost fs = floating_panes@;
        let mut rest = floating_panes;
        let ghost mut done: Seq<FloatingPaneLayout> = Seq::empty();
        while rest.len() > 0
            invariant
                fs == done + rest@,
                commands@ == flatten_tiled(tile) + floating_runs(done),
            decreases rest@.len(),
        {
            let pane = rest.remove(0);
            if let Some(run) = pane.run {
                commands.push(run);
            }
            proof {
                assert(fs == done.push(pane) + rest@);
                assert(floating_runs(done.push(pane)) == floating_runs(done) + run_seq(pane.run))
                    by {
                    assert(done.push(pane).drop_last() =~= done);
                    assert(done.push(pane).last() == pane);
                }
                done = done.push(pane);
            }
        }
        proof {
            assert(done =~= fs);
        }
        Tab { name, commands }
    }
}

impl Session {
    /// Builds one session record. A session whose layout was not found still
    /// exists, with an empty tab sequence; it is never an error.
    pub fn new(
        name: String,
        timestamp: SessionDuration,
        layout: Option<Layout>,
        is_current: bool,
        is_active: bool,
    ) -> (s: Session)
        ensures
            s.name == name,
            s.timestamp == timestamp,
            s.is_current == is_current,
            s.is_active == is_active,
            tabs_match(s.tabs@, layout),
    {
        let ghost entries_spec = layout_tab_entries(layout);
        let entries: Vec<(Option<String>, TiledPaneLayout, Vec<FloatingPaneLayout>)> = match layout {
            Some(l) => l.tabs,
            None => Vec::new(),
        };
        let mut tabs: Vec<Tab> = Vec::new();
        let mut rest = entries;
        let ghost mut done: Seq<(Option<String>, TiledPaneLayout, Vec<FloatingPaneLayout>)> =
            Seq::empty();
        while rest.len() > 0
            invariant
                entries_spec == done + rest@,
                tabs@.len() == done.len(),
                forall|i: int|
                    0 <= i < tabs@.len() ==> #[trigger] tab_matches(tabs@[i], entries_spec[i]),
            decreases rest@.len(),
        {
            let entry = rest.remove(0);
            let ghost e = entry;
            let (tab_name, tile, floating) = entry;
            let tab = Tab::new(tab_name, tile, floating);
            tabs.push(tab);
            proof {
                assert(entries_spec == done.push(e) + rest@);
                assert(entries_spec[done.len() as int] == e);
                done = done.push(e);
            }
        }
        proof {
            assert(done =~= entries_spec);
        }
        Session { name, tabs, timestamp, is_current, is_active }
    }
}

/// Whether some name of `names` has exactly the characters of `name`.
pub fn contains_name(names: &Vec<String>, name: &String) -> (r: bool)
    ensures
        r == contains_name_spec(names@, name@),
{
    let mut j: usize = 0;
    while j < names.len()
        invariant
            j <= names.len(),
            forall|k: int| 0 <= k < j ==> names@[k]@ != name@,
        decreases names.len() - j,
    {
        if names[j].eq(name) {
            return true;
        }
        j += 1;
    }
    false
}

/// Produces the full session collection for one listing request, from the
/// current session's name (empty when the lookup failed), the active-session
/// names the registry returned, and, for each resurrectable session, its
/// name, creation timestamp and resolved layout (`None` when no layout was
/// stored for it).
pub fn collect_sessions(
    curr_session: String,
    active_session_names: Vec<String>,
    resurrectable: Vec<(String, SessionDuration, Option<Layout>)>,
) -> (sessions: Vec<Session>)
    ensures
        sessions@.len() == resurrectable@.len(),
        forall|i: int|
            0 <= i < sessions@.len() ==> #[trigger] session_matches(
                sessions@[i],
                resurrectable@[i],
                active_session_names@,
                curr_session@,
            ),
{
    let ghost all = resurrectable@;
    let mut sessions: Vec<Session> = Vec::new();
    let mut rest = resurrectable;
    let ghost mut done: Seq<(String, SessionDuration, Option<Layout>)> = Seq::empty();
    while rest.len() > 0
        invariant
            all == done + rest@,
            sessions@.len() == done.len(),
            forall|i: int|
                0 <= i < sessions@.len() ==> #[trigger] session_matches(
                    sessions@[i],
                    all[i],
                    active_session_names@,
                    curr_session@,
                ),
        decreases rest@.len(),
    {
        let entry = rest.remove(0);
        let ghost e = entry;
        let (name, timestamp, layout) = entry;
        let is_active = contains_name(&active_session_names, &name);
        let is_current = name.eq(&curr_session);
        let session = Session::new(name, timestamp, layout, is_current, is_active);
        sessions.push(session);
        proof {
            assert(all == done.push(e) + rest@);
            assert(all[done.len() as int] == e);
            done = done.push(e);
        }
    }
    proof {
        assert(done =~= all);
    }
    sessions
}

} // verus!
