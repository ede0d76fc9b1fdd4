//! Properties of the task graph that relate several insertions or serializations, proved over
//! the model that the graph's operations are specified by.

use vstd::prelude::*;

use crate::task::graph_model::{
    accepts,
    fits_machine,
    inserted,
    lemma_replay_project,
    lemma_replay_sizes,
    output_dep,
    output_deps,
    project,
    replay,
    GraphView,
    TaskDescriptorView,
};
use crate::task::task_graph::TaskInputOutputIndex;

verus! {

/// Round trip: for any graph that insertions built, replaying its serialized descriptors
/// rebuilds exactly the same graph: the same tasks, the same dependencies with the same
/// sources, consumers and types.
pub proof fn lemma_round_trip(ds: Seq<TaskDescriptorView>, g: GraphView)
    requires
        replay(ds) == Some(g),
        fits_machine(g),
    ensures
        replay(project(g)) == Some(g),
{
    lemma_replay_project(ds);
}

/// Sequential indices: when every insertion of a sequence of descriptors succeeds, the graph
/// holds one task per descriptor, and descriptor `n` is inserted into the graph of the first `n`
/// descriptors, which holds `n` tasks: the index that `TaskGraph::insert_task` returns for it.
pub proof fn lemma_sequential_indices(ds: Seq<TaskDescriptorView>, n: int)
    requires
        replay(ds) is Some,
        fits_machine(replay(ds).unwrap()),
        0 <= n < ds.len(),
    ensures
        replay(ds).unwrap().tasks.len() == ds.len(),
        replay(ds.take(n)) is Some,
        replay(ds.take(n)).unwrap().tasks.len() == n,
        replay(ds.take(n + 1)) == Some(inserted(replay(ds.take(n)).unwrap(), ds[n])),
    decreases ds.len(),
{
    lemma_replay_project(ds);
    let prev = ds.drop_last();
    if n == ds.len() - 1 {
        assert(ds.take(n) =~= prev);
        assert(ds.take(n + 1) =~= ds);
        lemma_replay_sizes(ds);
        lemma_replay_project(prev);
    } else {
        lemma_replay_sizes(ds);
        lemma_sequential_indices(prev, n);
        assert(prev.take(n) =~= ds.take(n));
        assert(prev.take(n + 1) =~= ds.take(n + 1));
    }
}

/// Dangling outputs: right after an accepted insertion, every output of the new task can be
/// looked up, as a dependency produced by that output with no consumer.
pub proof fn lemma_new_outputs_dangling(g: GraphView, d: TaskDescriptorView, p: int)
    requires
        accepts(g, d),
        0 <= p < d.outputs.len(),
        inserted(g, d).tasks.len() <= usize::MAX,
        inserted(g, d).deps.len() <= usize::MAX,
    ensures
        output_dep(
            inserted(g, d),
            TaskInputOutputIndex { task_idx: g.tasks.len() as usize, position: p as usize },
        ) is Some,
        ({
            let h = inserted(g, d);
            let j = output_dep(
                h,
                TaskInputOutputIndex { task_idx: g.tasks.len() as usize, position: p as usize },
            ).unwrap();
            &&& h.deps[j as int].dst.len() == 0
            &&& h.deps[j as int].ty == d.outputs[p]
            &&& h.deps[j as int].src == Some(
                TaskInputOutputIndex { task_idx: g.tasks.len() as usize, position: p as usize },
            )
        }),
{
    let h = inserted(g, d);
    let t = g.tasks.len() as int;
    let base = g.deps.len() as int;
    match d.input_sources {
        None => {
            let n = d.inputs.len() as int;
            assert(h.tasks[t].outputs[p] == base + n + p);
            assert(h.deps[base + n + p] == output_deps(t as usize, d.outputs, base + n)[p]);
        },
        Some(_) => {
            assert(h.tasks[t].outputs[p] == base + p);
            assert(h.deps[base + p] == output_deps(t as usize, d.outputs, base)[p]);
        },
    }
}

} // verus!
