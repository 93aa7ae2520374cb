//! The layout flattener: a depth-first, pre-order walk of the tiled-pane
//! tree, followed by the floating panes in declaration order.

use vstd::prelude::*;

use crate::model::{FloatingPaneLayout, Run, TiledPaneLayout};

verus! {

/// The run of one node, as a sequence: empty when the node carries none.
pub open spec fn run_seq(run: Option<Run>) -> Seq<Run> {
    match run {
        Some(r) => seq![r],
        None => Seq::empty(),
    }
}

/// Depth-first, pre-order flattening of a tiled-pane tree: the node's own run
/// first, then each child's flattening in order.
pub open spec fn flatten_tiled(t: TiledPaneLayout) -> Seq<Run>
    decreases t,
{
    run_seq(t.run) + flatten_children(t.children@)
}

/// Flattening of a sequence of sibling subtrees, in order.
pub open spec fn flatten_children(cs: Seq<TiledPaneLayout>) -> Seq<Run>
    decreases cs,
{
    if cs.len() == 0 {
        Seq::empty()
    } else {
        flatten_children(cs.drop_last()) + flatten_tiled(cs.last())
    }
}

/// The runs of the floating panes, in declaration order; a pane with no run
/// is skipped.
pub open spec fn floating_runs(fs: Seq<FloatingPaneLayout>) -> Seq<Run>
    decreases fs.len(),
{
    if fs.len() == 0 {
        Seq::empty()
    } else {
        floating_runs(fs.drop_last()) + run_seq(fs.last().run)
    }
}

/// Everything that will execute when a tab starts: the tiled tree's runs in
/// depth-first pre-order, then the floating panes' runs.
pub open spec fn tab_runs(tile: TiledPaneLayout, floating: Seq<FloatingPaneLayout>) -> Seq<Run> {
    flatten_tiled(tile) + floating_runs(floating)
}

/// How many nodes of the tiled tree carry a run.
pub open spec fn count_tiled_runs(t: TiledPaneLayout) -> nat
    decreases t,
{
    run_seq(t.run).len() + count_children_runs(t.children@)
}

/// How many nodes of a sequence of subtrees carry a run.
pub open spec fn count_children_runs(cs: Seq<TiledPaneLayout>) -> nat
    decreases cs,
{
    if cs.len() == 0 {
        0
    } else {
        count_children_runs(cs.drop_last()) + count_tiled_runs(cs.last())
    }
}

/// How many floating panes carry a run.
pub open spec fn count_floating_runs(fs: Seq<FloatingPaneLayout>) -> nat
    decreases fs.len(),
{
    if fs.len() == 0 {
        0
    } else {
        count_floating_runs(fs.drop_last()) + run_seq(fs.last().run).len()
    }
}

/// The flattening of a tiled tree has exactly one entry per node that
/// carries a run.
pub proof fn lemma_flatten_tiled_len(t: TiledPaneLayout)
    ensures
        flatten_tiled(t).len() == count_tiled_runs(t),
    decreases t,
{
    lemma_flatten_children_len(t.children@);
}

/// The flattening of sibling subtrees has exactly one entry per run-carrying
/// node among them.
pub proof fn lemma_flatten_children_len(cs: Seq<TiledPaneLayout>)
    ensures
        flatten_children(cs).len() == count_children_runs(cs),
    decreases cs,
{
    if cs.len() > 0 {
        lemma_flatten_children_len(cs.drop_last());
        lemma_flatten_tiled_len(cs.last());
    }
}

/// The floating runs have exactly one entry per run-carrying floating pane.
pub proof fn lemma_floating_runs_len(fs: Seq<FloatingPaneLayout>)
    ensures
        floating_runs(fs).len() == count_floating_runs(fs),
    decreases fs.len(),
{
    if fs.len() > 0 {
        lemma_floating_runs_len(fs.drop_last());
    }
}

/// The flattener's output length equals the count of nodes, tiled and
/// floating together, that carry a run; its order is fixed by definition as
/// depth-first pre-order over the tiled tree followed by floating-pane
/// declaration order.
pub proof fn lemma_tab_runs_len(tile: TiledPaneLayout, floating: Seq<FloatingPaneLayout>)
    ensures
        tab_runs(tile, floating).len() == count_tiled_runs(tile) + count_floating_runs(floating),
{
    lemma_flatten_tiled_len(tile);
    lemma_floating_runs_len(floating);
}

/// Appends, to `buf`, the depth-first pre-order runs of the tree rooted at
/// `tile`: the node's own run, then each child's runs in order.
pub fn collect_commands_recursive(tile: TiledPaneLayout, buf: &mut Vec<Run>)
    ensures
        final(buf)@ == old(buf)@ + flatten_tiled(tile),
    decreases tile,
{
    let ghost t0 = tile;
    let TiledPaneLayout { run, children } = tile;
    if let Some(r) = run {
        buf.push(r);
    }
    let ghost cs = children@;
    let mut rest = children;
    let ghost mut done: Seq<TiledPaneLayout> = Seq::empty();
    while rest.len() > 0
        invariant
            t0 == tile,
            cs == t0.children@,
            cs == done + rest@,
            buf@ == old(buf)@ + run_seq(t0.run) + flatten_children(done),
        decreases rest@.len(),
    {
        let child = rest.remove(0);
        proof {
            assert(cs == done.push(child) + rest@);
            assert(cs[done.len() as int] == child);
            assert(decreases_to!(t0 => child)) by {
                assert(decreases_to!(t0 => t0.children));
                assert(decreases_to!(t0.children => t0.children@));
                assert(decreases_to!(cs => cs[done.len() as int]));
            }
        }
        collect_commands_recursive(child, buf);
        proof {
            assert(flatten_children(done.push(child)) == flatten_children(done)
                + flatten_tiled(child)) by {
                assert(done.push(child).drop_last() =~= done);
                assert(done.push(child).last() == child);
            }
            done = done.push(child);
        }
    }
    proof {
        assert(done =~= cs);
    }
}

} // verus!
