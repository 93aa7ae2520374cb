//! The data model: runs, pane layouts, tabs and sessions.
//!
//! A `Session` is built fresh on every listing request and never mutated
//! afterwards; a `Tab` owns the ordered runs that execute when the tab is
//! resurrected.

use vstd::prelude::*;

verus! {

/// Elapsed time since a session's creation, kept as whole seconds plus a
/// sub-second nanosecond remainder (always below one billion).
#[derive(Clone, Copy, PartialEq, Eq, Structural, Debug)]
pub struct SessionDuration {
    pub secs: u64,
    pub nanos: u32,
}

impl SessionDuration {
    /// A duration is normalized: the nanosecond part never reaches a second.
    pub open spec fn wf(self) -> bool {
        self.nanos < 1_000_000_000
    }
}

/// A plugin is referenced either by the string form of its direct location or
/// by an alias name.
#[derive(Clone, Debug, PartialEq)]
pub enum RunPluginOrAlias {
    RunPlugin { location: String },
    Alias { name: String },
}

/// The command a pane runs: a program, its arguments in order, and an
/// optional working directory.
#[derive(Clone, Debug, PartialEq)]
pub struct RunCommand {
    pub command: String,
    pub args: Vec<String>,
    pub cwd: Option<String>,
}

/// What a pane does when its session is resurrected.
#[derive(Clone, Debug, PartialEq)]
pub enum Run {
    Command(RunCommand),
    EditFile(String),
    Cwd(String),
    Plugin(RunPluginOrAlias),
}

/// A node of the tiled-pane tree: an optional run of its own and its child
/// panes in layout order.
#[derive(Debug, PartialEq)]
pub struct TiledPaneLayout {
    pub run: Option<Run>,
    pub children: Vec<TiledPaneLayout>,
}

/// A floating pane, listed outside the tiled hierarchy.
#[derive(Debug, PartialEq)]
pub struct FloatingPaneLayout {
    pub run: Option<Run>,
}

/// A persisted layout: one entry per tab, holding the tab's optional name,
/// its tiled-pane tree, and its floating panes in declaration order.
#[derive(Debug, PartialEq)]
pub struct Layout {
    pub tabs: Vec<(Option<String>, TiledPaneLayout, Vec<FloatingPaneLayout>)>,
}

/// A displayable tab: its optional name and the ordered runs that start with
/// it.
#[derive(Clone, Debug, PartialEq)]
pub struct Tab {
    pub name: Option<String>,
    pub commands: Vec<Run>,
}

/// A displayable session, merged from the registry, the resurrection store
/// and the layout resolver.
#[derive(Clone, Debug, PartialEq)]
pub struct Session {
    pub name: String,
    pub tabs: Vec<Tab>,
    pub timestamp: SessionDuration,
    pub is_current: bool,
    pub is_active: bool,
}

impl Session {
    /// Every session carries a normalized timestamp.
    pub open spec fn wf(self) -> bool {
        self.timestamp.wf()
    }
}

/// All sessions of a collection are well formed.
pub open spec fn all_wf(sessions: Seq<Session>) -> bool {
    forall|i: int| 0 <= i < sessions.len() ==> #[trigger] sessions[i].wf()
}

} // verus!
