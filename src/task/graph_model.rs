//! The mathematical model of a task graph: views of its parts, what an insertion accepts and
//! builds, the invariant that insertions keep, and the serialized form as a list of
//! descriptors that replay turns back into a graph.

use vstd::prelude::*;

use crate::task::task_graph::{DataflowDependencyIndex, TaskDescriptor, TaskIndex, TaskInputOutputIndex};
use crate::task::type_descriptor::{DataType, DataTypeDescriptor};

verus! {

/// The mathematical value of a [`Task`](crate::task::Task).
pub struct TaskView {
    pub idx: TaskIndex,
    pub tdl_package: Seq<char>,
    pub tdl_function: Seq<char>,
    pub parents: Seq<TaskIndex>,
    pub children: Seq<TaskIndex>,
    pub inputs: Seq<DataflowDependencyIndex>,
    pub outputs: Seq<DataflowDependencyIndex>,
}

/// The mathematical value of a [`DataflowDependency`](crate::task::DataflowDependency).
pub struct DependencyView {
    pub index: DataflowDependencyIndex,
    pub ty: DataType,
    pub src: Option<TaskInputOutputIndex>,
    pub dst: Seq<TaskInputOutputIndex>,
}

/// The mathematical value of a [`TaskDescriptor`](crate::task::TaskDescriptor).
pub struct TaskDescriptorView {
    pub tdl_package: Seq<char>,
    pub tdl_function: Seq<char>,
    pub inputs: Seq<DataType>,
    pub outputs: Seq<DataType>,
    pub input_sources: Option<Seq<TaskInputOutputIndex>>,
}

/// The mathematical value of a [`TaskGraph`](crate::task::TaskGraph).
pub struct GraphView {
    pub tasks: Seq<TaskView>,
    pub deps: Seq<DependencyView>,
}

/// The abstract types of a sequence of descriptors.
pub open spec fn types_of(v: Seq<DataTypeDescriptor>) -> Seq<DataType> {
    v.map_values(|d: DataTypeDescriptor| d@)
}

// ---------------------------------------------------------------------------------------------
// The model of a graph and of insertion.
// ---------------------------------------------------------------------------------------------

/// The graph with no task and no dependency.
pub open spec fn empty_graph() -> GraphView {
    GraphView { tasks: Seq::empty(), deps: Seq::empty() }
}

/// The dependency that a task input reads, if the locator names an existing input.
pub open spec fn input_dep(g: GraphView, loc: TaskInputOutputIndex) -> Option<
    DataflowDependencyIndex,
> {
    if loc.task_idx < g.tasks.len() && loc.position < g.tasks[loc.task_idx as int].inputs.len()
        && g.tasks[loc.task_idx as int].inputs[loc.position as int] < g.deps.len() {
        Some(g.tasks[loc.task_idx as int].inputs[loc.position as int])
    } else {
        None
    }
}

/// The dependency that a task output produces, if the locator names an existing output.
pub open spec fn output_dep(g: GraphView, loc: TaskInputOutputIndex) -> Option<
    DataflowDependencyIndex,
> {
    if loc.task_idx < g.tasks.len() && loc.position < g.tasks[loc.task_idx as int].outputs.len()
        && g.tasks[loc.task_idx as int].outputs[loc.position as int] < g.deps.len() {
        Some(g.tasks[loc.task_idx as int].outputs[loc.position as int])
    } else {
        None
    }
}

/// The locator names an existing task output whose type is exactly `ty`.
pub open spec fn source_fits(g: GraphView, loc: TaskInputOutputIndex, ty: DataType) -> bool {
    match output_dep(g, loc) {
        Some(j) => g.deps[j as int].ty == ty,
        None => false,
    }
}

/// The sources are valid for the given input types: at least one input, one source per input,
/// and each source an existing task output of exactly the input's type.
pub open spec fn sources_fit(
    g: GraphView,
    inputs: Seq<DataType>,
    sources: Seq<TaskInputOutputIndex>,
) -> bool {
    &&& inputs.len() > 0
    &&& sources.len() == inputs.len()
    &&& forall|i: int| 0 <= i < sources.len() ==> #[trigger] source_fits(g, sources[i], inputs[i])
}

/// Whether the graph accepts the descriptor as its next task.
pub open spec fn accepts(g: GraphView, d: TaskDescriptorView) -> bool {
    match d.input_sources {
        None => true,
        Some(sources) => sources_fit(g, d.inputs, sources),
    }
}

/// The dependencies that the sources name, one per input.
pub open spec fn resolved_inputs(g: GraphView, sources: Seq<TaskInputOutputIndex>) -> Seq<
    DataflowDependencyIndex,
> {
    sources.map_values(|l: TaskInputOutputIndex| output_dep(g, l).unwrap())
}

/// The sequence is strictly increasing: sorted, with no element twice.
pub open spec fn strictly_increasing(s: Seq<usize>) -> bool {
    forall|i: int, j: int| 0 <= i < j < s.len() ==> s[i] < s[j]
}

/// `x` put into its place in a strictly increasing sequence, unless it is there already.
pub open spec fn sorted_insert(s: Seq<usize>, x: usize) -> Seq<usize>
    decreases s.len(),
{
    if s.len() == 0 {
        seq![x]
    } else if x < s[0] {
        seq![x] + s
    } else if x == s[0] {
        s
    } else {
        seq![s[0]] + sorted_insert(s.drop_first(), x)
    }
}

/// The parent tasks that the sources name: each task once, in increasing order.
pub open spec fn parent_list(sources: Seq<TaskInputOutputIndex>) -> Seq<TaskIndex>
    decreases sources.len(),
{
    if sources.len() == 0 {
        Seq::empty()
    } else {
        sorted_insert(parent_list(sources.drop_last()), sources.last().task_idx)
    }
}

/// The inputs of task `t`, in position order, that read dependency `j` when the task's inputs
/// read the dependencies `inputs`.
pub open spec fn consumers(inputs: Seq<DataflowDependencyIndex>, j: DataflowDependencyIndex, t: TaskIndex) -> Seq<
    TaskInputOutputIndex,
>
    decreases inputs.len(),
{
    if inputs.len() == 0 {
        Seq::empty()
    } else {
        let rest = consumers(inputs.drop_last(), j, t);
        if inputs.last() == j {
            rest.push(TaskInputOutputIndex { task_idx: t, position: (inputs.len() - 1) as usize })
        } else {
            rest
        }
    }
}

/// The dependencies that a new task `t` creates for its outputs, numbered from `base`.
pub open spec fn output_deps(t: TaskIndex, outputs: Seq<DataType>, base: int) -> Seq<
    DependencyView,
> {
    Seq::new(
        outputs.len(),
        |p: int|
            DependencyView {
                index: (base + p) as usize,
                ty: outputs[p],
                src: Some(TaskInputOutputIndex { task_idx: t, position: p as usize }),
                dst: Seq::empty(),
            },
    )
}

/// The dependencies that a new input task `t` creates for its graph inputs, numbered from
/// `base`: each has no source and task `t` as its one consumer.
pub open spec fn graph_input_deps(t: TaskIndex, inputs: Seq<DataType>, base: int) -> Seq<
    DependencyView,
> {
    Seq::new(
        inputs.len(),
        |i: int|
            DependencyView {
                index: (base + i) as usize,
                ty: inputs[i],
                src: None,
                dst: seq![TaskInputOutputIndex { task_idx: t, position: i as usize }],
            },
    )
}

/// The indices `base`, `base + 1`, ..., `base + n - 1`.
pub open spec fn index_range(base: int, n: int) -> Seq<usize> {
    Seq::new(n as nat, |i: int| (base + i) as usize)
}

/// The graph after `accepts(g, d)` and the insertion of `d` as task `g.tasks.len()`.
///
/// An input task gets one fresh source-less dependency per input, consumed by it alone. Any
/// other task consumes the dependencies of its sources' outputs, is appended to their consumer
/// lists in position order, has the source tasks as its parents (each once, increasing), and is
/// appended once to the child list of each parent. Every task gets one fresh dependency per
/// output, with no consumer yet.
pub open spec fn inserted(g: GraphView, d: TaskDescriptorView) -> GraphView {
    let t = g.tasks.len() as usize;
    let base = g.deps.len() as int;
    match d.input_sources {
        None => {
            let n = d.inputs.len() as int;
            let task = TaskView {
                idx: t,
                tdl_package: d.tdl_package,
                tdl_function: d.tdl_function,
                parents: Seq::empty(),
                children: Seq::empty(),
                inputs: index_range(base, n),
                outputs: index_range(base + n, d.outputs.len() as int),
            };
            GraphView {
                tasks: g.tasks.push(task),
                deps: g.deps + graph_input_deps(t, d.inputs, base) + output_deps(
                    t,
                    d.outputs,
                    base + n,
                ),
            }
        },
        Some(sources) => {
            let inputs = resolved_inputs(g, sources);
            let parents = parent_list(sources);
            let task = TaskView {
                idx: t,
                tdl_package: d.tdl_package,
                tdl_function: d.tdl_function,
                parents,
                children: Seq::empty(),
                inputs,
                outputs: index_range(base, d.outputs.len() as int),
            };
            GraphView {
                tasks: with_child(g.tasks, parents, t).push(task),
                deps: with_consumers(g.deps, inputs, t) + output_deps(t, d.outputs, base),
            }
        },
    }
}

/// The tasks, with `t` appended to the child list of each task in `parents`.
pub open spec fn with_child(tasks: Seq<TaskView>, parents: Seq<TaskIndex>, t: TaskIndex) -> Seq<
    TaskView,
> {
    Seq::new(
        tasks.len(),
        |u: int|
            if parents.contains(u as usize) {
                TaskView { children: tasks[u].children.push(t), ..tasks[u] }
            } else {
                tasks[u]
            },
    )
}

/// The dependencies, with the inputs of task `t` appended to the consumer lists of the
/// dependencies they read.
pub open spec fn with_consumers(
    deps: Seq<DependencyView>,
    inputs: Seq<DataflowDependencyIndex>,
    t: TaskIndex,
) -> Seq<DependencyView> {
    Seq::new(
        deps.len(),
        |j: int| DependencyView { dst: deps[j].dst + consumers(inputs, j as usize, t), ..deps[j] },
    )
}

/// The invariant of every graph that insertions built: each task and dependency knows its own
/// index, every dependency index a task holds is in range, each output dependency names its
/// producer as its source, a task's parents come before it, every input of a task that has
/// parents reads a task output, a task's children are existing later tasks, listed in
/// increasing order and never twice, and every consumer that a dependency lists is an existing
/// task input that reads that dependency.
pub open spec fn graph_wf(g: GraphView) -> bool {
    &&& forall|t: int| 0 <= t < g.tasks.len() ==> (#[trigger] g.tasks[t]).idx == t
    &&& forall|j: int| 0 <= j < g.deps.len() ==> (#[trigger] g.deps[j]).index == j
    &&& forall|t: int, i: int|
        0 <= t < g.tasks.len() && 0 <= i < g.tasks[t].inputs.len() ==> #[trigger] g.tasks[t].inputs[i]
            < g.deps.len()
    &&& forall|t: int, p: int|
        0 <= t < g.tasks.len() && 0 <= p < g.tasks[t].outputs.len() ==> {
            &&& #[trigger] g.tasks[t].outputs[p] < g.deps.len()
            &&& g.deps[g.tasks[t].outputs[p] as int].src == Some(
                TaskInputOutputIndex { task_idx: t as usize, position: p as usize },
            )
        }
    &&& forall|t: int, k: int|
        0 <= t < g.tasks.len() && 0 <= k < g.tasks[t].parents.len() ==> #[trigger] g.tasks[t].parents[k]
            < t
    &&& forall|t: int, i: int|
        0 <= t < g.tasks.len() && 0 <= i < g.tasks[t].inputs.len() && g.tasks[t].parents.len()
            > 0 ==> g.deps[#[trigger] g.tasks[t].inputs[i] as int].src is Some
    &&& forall|t: int| 0 <= t < g.tasks.len() ==> strictly_increasing(#[trigger] g.tasks[t].children)
    &&& forall|t: int, k: int|
        0 <= t < g.tasks.len() && 0 <= k < g.tasks[t].children.len() ==> t < #[trigger] g.tasks[t].children[k]
            < g.tasks.len()
    &&& forall|j: int, k: int|
        0 <= j < g.deps.len() && 0 <= k < g.deps[j].dst.len() ==> consumer_reads(
            g,
            #[trigger] g.deps[j].dst[k],
            j,
        )
}

/// The graph's sizes fit the machine, as those of every graph held in memory do: the number of
/// tasks, of dependencies, and of each task's inputs.
pub open spec fn fits_machine(g: GraphView) -> bool {
    &&& g.tasks.len() <= usize::MAX
    &&& g.deps.len() <= usize::MAX
    &&& forall|t: int| 0 <= t < g.tasks.len() ==> (#[trigger] g.tasks[t]).inputs.len() <= usize::MAX
}

/// The locator names an existing task input that reads dependency `j`.
pub open spec fn consumer_reads(g: GraphView, loc: TaskInputOutputIndex, j: int) -> bool {
    &&& loc.task_idx < g.tasks.len()
    &&& loc.position < g.tasks[loc.task_idx as int].inputs.len()
    &&& g.tasks[loc.task_idx as int].inputs[loc.position as int] == j
}

/// Every consumer that `consumers` lists is an input of task `t` that reads dependency `j`.
proof fn lemma_consumers(inputs: Seq<DataflowDependencyIndex>, j: DataflowDependencyIndex, t: TaskIndex)
    requires
        inputs.len() <= usize::MAX,
    ensures
        forall|k: int|
            0 <= k < consumers(inputs, j, t).len() ==> {
                let c = #[trigger] consumers(inputs, j, t)[k];
                &&& c.task_idx == t
                &&& c.position < inputs.len()
                &&& inputs[c.position as int] == j
            },
    decreases inputs.len(),
{
    if inputs.len() > 0 {
        let prev = inputs.drop_last();
        lemma_consumers(prev, j, t);
        assert forall|k: int| 0 <= k < consumers(inputs, j, t).len() implies {
            let c = #[trigger] consumers(inputs, j, t)[k];
            &&& c.task_idx == t
            &&& c.position < inputs.len()
            &&& inputs[c.position as int] == j
        } by {
            let c = consumers(inputs, j, t)[k];
            if k < consumers(prev, j, t).len() {
                assert(c == consumers(prev, j, t)[k]);
                assert(prev[c.position as int] == inputs[c.position as int]);
            }
        }
    }
}

// ---------------------------------------------------------------------------------------------
// Lemmas on the model.
// ---------------------------------------------------------------------------------------------

/// A sequence with one element put in front contains what the element and the rest contain.
proof fn lemma_cons_contains(a: usize, t: Seq<usize>)
    ensures
        forall|y: usize| #[trigger] (seq![a] + t).contains(y) <==> (y == a || t.contains(y)),
{
    let r = seq![a] + t;
    assert forall|y: usize| r.contains(y) <==> (y == a || t.contains(y)) by {
        if r.contains(y) {
            let i = choose|i: int| 0 <= i < r.len() && r[i] == y;
            if i > 0 {
                assert(t[i - 1] == y);
            }
        }
        if y == a {
            assert(r[0] == y);
        }
        if t.contains(y) {
            let i = choose|i: int| 0 <= i < t.len() && t[i] == y;
            assert(r[i + 1] == y);
        }
    }
}

/// `sorted_insert` adds `x` to what `s` contains, and nothing else.
proof fn lemma_sorted_insert_contains(s: Seq<usize>, x: usize)
    ensures
        forall|y: usize| sorted_insert(s, x).contains(y) <==> (s.contains(y) || y == x),
    decreases s.len(),
{
    let r = sorted_insert(s, x);
    if s.len() == 0 {
        lemma_cons_contains(x, s);
        assert(r =~= seq![x] + s);
        assert forall|y: usize| r.contains(y) <==> (s.contains(y) || y == x) by {
            assert((seq![x] + s).contains(y) <==> (y == x || s.contains(y)));
        }
    } else {
        let rest = s.drop_first();
        assert(seq![s[0]] + rest =~= s);
        lemma_cons_contains(s[0], rest);
        if x < s[0] {
            assert(r == seq![x] + s);
            lemma_cons_contains(x, s);
        } else if x == s[0] {
            assert(r == s);
            assert(s.contains(s[0]));
        } else {
            assert(r == seq![s[0]] + sorted_insert(rest, x));
            lemma_sorted_insert_contains(rest, x);
            lemma_cons_contains(s[0], sorted_insert(rest, x));
            assert forall|y: usize| r.contains(y) <==> (s.contains(y) || y == x) by {
                assert(r.contains(y) <==> (y == s[0] || sorted_insert(rest, x).contains(y)));
                assert(s.contains(y) <==> (y == s[0] || rest.contains(y)));
            }
        }
    }
}

/// `sorted_insert` keeps a sequence strictly increasing.
proof fn lemma_sorted_insert_increasing(s: Seq<usize>, x: usize)
    requires
        strictly_increasing(s),
    ensures
        strictly_increasing(sorted_insert(s, x)),
    decreases s.len(),
{
    if s.len() > 0 && x > s[0] {
        let rest = s.drop_first();
        lemma_sorted_insert_increasing(rest, x);
        lemma_sorted_insert_contains(rest, x);
        let ri = sorted_insert(rest, x);
        let r = sorted_insert(s, x);
        assert forall|i: int, j: int| 0 <= i < j < r.len() implies r[i] < r[j] by {
            if i == 0 {
                assert(r[j] == ri[j - 1]);
                assert(ri.contains(r[j]));
                if rest.contains(r[j]) {
                    let m = choose|m: int| 0 <= m < rest.len() && rest[m] == r[j];
                    assert(s[m + 1] == r[j]);
                }
            } else {
                assert(r[i] == ri[i - 1] && r[j] == ri[j - 1]);
            }
        }
    }
}

/// Where `k` is the first place whose element is not below `x`, `sorted_insert` keeps `s` when
/// `x` stands there and otherwise puts `x` at `k`.
pub(crate) proof fn lemma_sorted_insert_at(s: Seq<usize>, x: usize, k: int)
    requires
        0 <= k <= s.len(),
        forall|m: int| 0 <= m < k ==> s[m] < x,
        k < s.len() ==> s[k] >= x,
    ensures
        sorted_insert(s, x) == (if k < s.len() && s[k] == x {
            s
        } else {
            s.take(k).push(x) + s.skip(k)
        }),
    decreases s.len(),
{
    if s.len() == 0 {
        assert(s.take(k).push(x) + s.skip(k) =~= seq![x]);
    } else if k == 0 {
        if s[0] != x {
            assert(s.take(0).push(x) + s.skip(0) =~= seq![x] + s);
        }
    } else {
        let rest = s.drop_first();
        assert forall|m: int| 0 <= m < k - 1 implies rest[m] < x by {
            assert(rest[m] == s[m + 1]);
        }
        lemma_sorted_insert_at(rest, x, k - 1);
        if k < s.len() && s[k] == x {
            assert(seq![s[0]] + rest =~= s);
        } else {
            assert(seq![s[0]] + (rest.take(k - 1).push(x) + rest.skip(k - 1)) =~= s.take(k).push(
                x,
            ) + s.skip(k));
        }
    }
}

/// The parents that sources name are strictly increasing, and are exactly the source tasks.
pub proof fn lemma_parent_list(sources: Seq<TaskInputOutputIndex>)
    ensures
        strictly_increasing(parent_list(sources)),
        forall|u: usize|
            parent_list(sources).contains(u) <==> exists|i: int|
                0 <= i < sources.len() && (#[trigger] sources[i]).task_idx == u,
        sources.len() > 0 ==> parent_list(sources).len() > 0,
    decreases sources.len(),
{
    if sources.len() > 0 {
        let prev = sources.drop_last();
        lemma_parent_list(prev);
        let s = parent_list(prev);
        let x = sources.last().task_idx;
        lemma_sorted_insert_contains(s, x);
        lemma_sorted_insert_increasing(s, x);
        let r = parent_list(sources);
        assert forall|u: usize|
            r.contains(u) <==> exists|i: int|
                0 <= i < sources.len() && (#[trigger] sources[i]).task_idx == u by {
            if s.contains(u) {
                let i = choose|i: int| 0 <= i < prev.len() && (#[trigger] prev[i]).task_idx == u;
                assert(sources[i] == prev[i]);
            }
            if exists|i: int| 0 <= i < sources.len() && (#[trigger] sources[i]).task_idx == u {
                let i = choose|i: int| 0 <= i < sources.len() && (#[trigger] sources[i]).task_idx == u;
                if i < prev.len() {
                    assert(prev[i] == sources[i]);
                }
            }
        }
        assert(r.contains(x));
    }
}

/// An accepted insertion keeps the graph invariant.
pub proof fn lemma_inserted_wf(g: GraphView, d: TaskDescriptorView)
    requires
        graph_wf(g),
        accepts(g, d),
        fits_machine(inserted(g, d)),
    ensures
        graph_wf(inserted(g, d)),
{
    let h = inserted(g, d);
    let t = g.tasks.len() as usize;
    let base = g.deps.len() as int;
    assert(h.tasks[t as int].idx == t);
    assert(h.tasks[t as int].inputs.len() <= usize::MAX);
    match d.input_sources {
        None => {
            let n = d.inputs.len() as int;
            assert forall|j: int| 0 <= j < h.deps.len() implies (#[trigger] h.deps[j]).index == j by {
                if j >= base {
                }
            }
            assert forall|u: int, p: int|
                0 <= u < h.tasks.len() && 0 <= p < h.tasks[u].outputs.len() implies {
                    &&& #[trigger] h.tasks[u].outputs[p] < h.deps.len()
                    &&& h.deps[h.tasks[u].outputs[p] as int].src == Some(
                        TaskInputOutputIndex { task_idx: u as usize, position: p as usize },
                    )
                } by {
                if u < t {
                    assert(h.tasks[u] == g.tasks[u]);
                    assert(h.deps[g.tasks[u].outputs[p] as int] == g.deps[g.tasks[u].outputs[p] as int]);
                } else {
                    assert(h.tasks[u].outputs[p] == base + n + p);
                }
            }
            assert forall|u: int, i: int|
                0 <= u < h.tasks.len() && 0 <= i < h.tasks[u].inputs.len() implies #[trigger] h.tasks[u].inputs[i]
                    < h.deps.len() by {
                if u < t {
                    assert(h.tasks[u] == g.tasks[u]);
                }
            }
            assert forall|u: int, i: int|
                0 <= u < h.tasks.len() && 0 <= i < h.tasks[u].inputs.len() && h.tasks[u].parents.len()
                    > 0 implies h.deps[#[trigger] h.tasks[u].inputs[i] as int].src is Some by {
                assert(u < t);
                assert(h.tasks[u] == g.tasks[u]);
                assert(h.deps[g.tasks[u].inputs[i] as int] == g.deps[g.tasks[u].inputs[i] as int]);
            }
            assert forall|u: int, k: int|
                0 <= u < h.tasks.len() && 0 <= k < h.tasks[u].parents.len() implies #[trigger] h.tasks[u].parents[k]
                    < u by {
                assert(u < t);
                assert(h.tasks[u] == g.tasks[u]);
            }
            assert forall|u: int| 0 <= u < h.tasks.len() implies strictly_increasing(
                #[trigger] h.tasks[u].children,
            ) by {
                if u < t {
                    assert(h.tasks[u] == g.tasks[u]);
                }
            }
            assert forall|u: int, k: int|
                0 <= u < h.tasks.len() && 0 <= k < h.tasks[u].children.len() implies u
                    < #[trigger] h.tasks[u].children[k] < h.tasks.len() by {
                assert(u < t);
                assert(h.tasks[u] == g.tasks[u]);
            }
            assert forall|j: int, k: int|
                0 <= j < h.deps.len() && 0 <= k < h.deps[j].dst.len() implies consumer_reads(
                    h,
                    #[trigger] h.deps[j].dst[k],
                    j,
                ) by {
                if j < base {
                    let c = g.deps[j].dst[k];
                    assert(consumer_reads(g, c, j));
                    assert(h.tasks[c.task_idx as int] == g.tasks[c.task_idx as int]);
                } else {
                    assert(j < base + n);
                    assert(h.tasks[t as int].inputs[j - base] == j);
                }
            }
        },
        Some(sources) => {
            let inputs = resolved_inputs(g, sources);
            let parents = parent_list(sources);
            lemma_parent_list(sources);
            assert forall|i: int| 0 <= i < inputs.len() implies {
                &&& (#[trigger] inputs[i]) < base
                &&& g.deps[inputs[i] as int].src is Some
            } by {
                assert(source_fits(g, sources[i], d.inputs[i]));
                let loc = sources[i];
                assert(g.deps[g.tasks[loc.task_idx as int].outputs[loc.position as int] as int].src
                    == Some(loc));
            }
            assert forall|j: int| 0 <= j < h.deps.len() implies (#[trigger] h.deps[j]).index == j by {
                if j < base {
                    assert(h.deps[j].index == g.deps[j].index);
                }
            }
            assert forall|u: int, p: int|
                0 <= u < h.tasks.len() && 0 <= p < h.tasks[u].outputs.len() implies {
                    &&& #[trigger] h.tasks[u].outputs[p] < h.deps.len()
                    &&& h.deps[h.tasks[u].outputs[p] as int].src == Some(
                        TaskInputOutputIndex { task_idx: u as usize, position: p as usize },
                    )
                } by {
                if u < t {
                    assert(h.tasks[u].outputs == g.tasks[u].outputs);
                    assert(h.deps[g.tasks[u].outputs[p] as int].src == g.deps[g.tasks[u].outputs[p] as int].src);
                } else {
                    assert(h.tasks[u].outputs[p] == base + p);
                }
            }
            assert forall|u: int, i: int|
                0 <= u < h.tasks.len() && 0 <= i < h.tasks[u].inputs.len() implies #[trigger] h.tasks[u].inputs[i]
                    < h.deps.len() by {
                if u < t {
                    assert(h.tasks[u].inputs == g.tasks[u].inputs);
                }
            }
            assert forall|u: int, i: int|
                0 <= u < h.tasks.len() && 0 <= i < h.tasks[u].inputs.len() && h.tasks[u].parents.len()
                    > 0 implies h.deps[#[trigger] h.tasks[u].inputs[i] as int].src is Some by {
                if u < t {
                    assert(h.tasks[u].inputs == g.tasks[u].inputs);
                    assert(h.tasks[u].parents == g.tasks[u].parents);
                    assert(h.deps[g.tasks[u].inputs[i] as int].src == g.deps[g.tasks[u].inputs[i] as int].src);
                } else {
                    assert(h.tasks[u].inputs[i] == inputs[i]);
                    assert(h.deps[inputs[i] as int].src == g.deps[inputs[i] as int].src);
                }
            }
            assert forall|u: int, k: int|
                0 <= u < h.tasks.len() && 0 <= k < h.tasks[u].parents.len() implies #[trigger] h.tasks[u].parents[k]
                    < u by {
                if u < t {
                    assert(h.tasks[u].parents == g.tasks[u].parents);
                } else {
                    let x = parents[k];
                    assert(parents.contains(x));
                    let i = choose|i: int| 0 <= i < sources.len() && (#[trigger] sources[i]).task_idx == x;
                    assert(source_fits(g, sources[i], d.inputs[i]));
                }
            }
            assert forall|u: int| 0 <= u < h.tasks.len() implies strictly_increasing(
                #[trigger] h.tasks[u].children,
            ) by {
                if u < t {
                    let old_children = g.tasks[u].children;
                    assert(strictly_increasing(old_children));
                    if parents.contains(u as usize) {
                        assert(h.tasks[u].children == old_children.push(t as usize));
                        assert forall|k: int| 0 <= k < old_children.len() implies #[trigger] old_children[k] < t by {
                        }
                    } else {
                        assert(h.tasks[u].children == old_children);
                    }
                }
            }
            assert forall|u: int, k: int|
                0 <= u < h.tasks.len() && 0 <= k < h.tasks[u].children.len() implies u
                    < #[trigger] h.tasks[u].children[k] < h.tasks.len() by {
                assert(u < t);
                let old_children = g.tasks[u].children;
                if parents.contains(u as usize) {
                    assert(h.tasks[u].children == old_children.push(t as usize));
                    if k < old_children.len() {
                        assert(h.tasks[u].children[k] == old_children[k]);
                    }
                } else {
                    assert(h.tasks[u].children == old_children);
                }
            }
            assert forall|j: int, k: int|
                0 <= j < h.deps.len() && 0 <= k < h.deps[j].dst.len() implies consumer_reads(
                    h,
                    #[trigger] h.deps[j].dst[k],
                    j,
                ) by {
                assert(j < base);
                let old_dst = g.deps[j].dst;
                let added = consumers(inputs, j as usize, t as usize);
                assert(h.deps[j].dst == old_dst + added);
                if k < old_dst.len() {
                    let c = old_dst[k];
                    assert(h.deps[j].dst[k] == c);
                    assert(consumer_reads(g, c, j));
                    assert(h.tasks[c.task_idx as int].inputs == g.tasks[c.task_idx as int].inputs);
                } else {
                    lemma_consumers(inputs, j as usize, t as usize);
                    let c = added[k - old_dst.len()];
                    assert(h.deps[j].dst[k] == c);
                    assert(h.tasks[t as int].inputs == inputs);
                }
            }
        },
    }
}

// ---------------------------------------------------------------------------------------------
// The model of serialization: a graph as a list of descriptors, and replay.
// ---------------------------------------------------------------------------------------------

/// The descriptor that a task of the graph serializes to: its function reference, the types of
/// its inputs and outputs, and the sources of its inputs (`None` for an input task).
pub open spec fn project_task(g: GraphView, t: TaskView) -> TaskDescriptorView {
    TaskDescriptorView {
        tdl_package: t.tdl_package,
        tdl_function: t.tdl_function,
        inputs: t.inputs.map_values(|j: DataflowDependencyIndex| g.deps[j as int].ty),
        outputs: t.outputs.map_values(|j: DataflowDependencyIndex| g.deps[j as int].ty),
        input_sources: if t.parents.len() == 0 {
            None
        } else {
            Some(t.inputs.map_values(|j: DataflowDependencyIndex| g.deps[j as int].src.unwrap()))
        },
    }
}

/// The descriptors of all tasks of the graph, in index order.
pub open spec fn project(g: GraphView) -> Seq<TaskDescriptorView> {
    g.tasks.map_values(|t: TaskView| project_task(g, t))
}

/// The graph that inserting the descriptors in order into an empty graph builds, if every
/// insertion is accepted.
pub open spec fn replay(ds: Seq<TaskDescriptorView>) -> Option<GraphView>
    decreases ds.len(),
{
    if ds.len() == 0 {
        Some(empty_graph())
    } else {
        match replay(ds.drop_last()) {
            Some(g) => if accepts(g, ds.last()) {
                Some(inserted(g, ds.last()))
            } else {
                None
            },
            None => None,
        }
    }
}

/// The views of a sequence of descriptors.
pub open spec fn descriptor_views(v: Seq<TaskDescriptor>) -> Seq<TaskDescriptorView> {
    v.map_values(|d: TaskDescriptor| d@)
}

/// Serializing a graph after an accepted insertion gives the descriptors it gave before, and
/// then the inserted descriptor itself.
pub proof fn lemma_project_inserted(g: GraphView, d: TaskDescriptorView)
    requires
        graph_wf(g),
        accepts(g, d),
        inserted(g, d).deps.len() <= usize::MAX,
    ensures
        project(inserted(g, d)) == project(g).push(d),
{
    let h = inserted(g, d);
    let t = g.tasks.len() as int;
    let base = g.deps.len() as int;
    assert forall|j: int| 0 <= j < base implies (#[trigger] h.deps[j]).ty == g.deps[j].ty
        && h.deps[j].src == g.deps[j].src by {
    }
    assert forall|u: int| 0 <= u < t implies #[trigger] project_task(h, h.tasks[u]) == project_task(
        g,
        g.tasks[u],
    ) by {
        let a = h.tasks[u];
        let b = g.tasks[u];
        assert(a.inputs == b.inputs && a.outputs == b.outputs && a.parents == b.parents);
        assert(forall|i: int| 0 <= i < b.inputs.len() ==> #[trigger] b.inputs[i] < base);
        assert(forall|p: int| 0 <= p < b.outputs.len() ==> #[trigger] b.outputs[p] < base);
        assert(project_task(h, a).inputs =~= project_task(g, b).inputs);
        assert(project_task(h, a).outputs =~= project_task(g, b).outputs);
        if b.parents.len() > 0 {
            assert(project_task(h, a).input_sources.unwrap() =~= project_task(
                g,
                b,
            ).input_sources.unwrap());
        }
    }
    let last = project_task(h, h.tasks[t]);
    match d.input_sources {
        None => {
            let n = d.inputs.len() as int;
            assert forall|i: int| 0 <= i < n implies last.inputs[i] == d.inputs[i] by {
                assert(h.tasks[t].inputs[i] == base + i);
                assert(h.deps[base + i] == graph_input_deps(t as usize, d.inputs, base)[i]);
            }
            assert forall|p: int| 0 <= p < d.outputs.len() implies last.outputs[p] == d.outputs[p] by {
                assert(h.tasks[t].outputs[p] == base + n + p);
                assert(h.deps[base + n + p] == output_deps(t as usize, d.outputs, base + n)[p]);
            }
            assert(last.inputs =~= d.inputs);
            assert(last.outputs =~= d.outputs);
        },
        Some(sources) => {
            lemma_parent_list(sources);
            assert(last.inputs =~= d.inputs) by {
                assert forall|i: int| 0 <= i < d.inputs.len() implies last.inputs[i] == d.inputs[i] by {
                    assert(source_fits(g, sources[i], d.inputs[i]));
                }
            }
            assert forall|p: int| 0 <= p < d.outputs.len() implies last.outputs[p] == d.outputs[p] by {
                assert(h.tasks[t].outputs[p] == base + p);
                assert(h.deps[base + p] == output_deps(t as usize, d.outputs, base)[p]);
            }
            assert(last.outputs =~= d.outputs);
            assert(last.input_sources.unwrap() =~= sources) by {
                assert forall|i: int| 0 <= i < sources.len() implies last.input_sources.unwrap()[i]
                    == sources[i] by {
                    assert(source_fits(g, sources[i], d.inputs[i]));
                    let loc = sources[i];
                    assert(g.deps[g.tasks[loc.task_idx as int].outputs[loc.position as int] as int].src
                        == Some(loc));
                }
            }
        },
    }
    assert(project(h) =~= project(g).push(d));
}

/// A graph that replay builds, within machine sizes, is well formed and serializes back to
/// exactly the descriptors it was built from; it has one task per descriptor.
pub proof fn lemma_replay_project(ds: Seq<TaskDescriptorView>)
    requires
        replay(ds) is Some,
        fits_machine(replay(ds).unwrap()),
    ensures
        graph_wf(replay(ds).unwrap()),
        project(replay(ds).unwrap()) == ds,
        replay(ds).unwrap().tasks.len() == ds.len(),
    decreases ds.len(),
{
    if ds.len() == 0 {
        assert(project(empty_graph()) =~= ds);
    } else {
        let prev = ds.drop_last();
        let g = replay(prev).unwrap();
        lemma_replay_sizes(ds);
        lemma_replay_project(prev);
        lemma_inserted_wf(g, ds.last());
        lemma_project_inserted(g, ds.last());
        assert(prev.push(ds.last()) =~= ds);
    }
}

/// Replay of a shorter prefix builds a graph that fits the machine when the whole replay does.
pub(crate) proof fn lemma_replay_sizes(ds: Seq<TaskDescriptorView>)
    requires
        replay(ds) is Some,
        ds.len() > 0,
    ensures
        replay(ds.drop_last()) is Some,
        fits_machine(replay(ds).unwrap()) ==> fits_machine(replay(ds.drop_last()).unwrap()),
{
    let g = replay(ds.drop_last()).unwrap();
    let h = replay(ds).unwrap();
    assert forall|t: int| 0 <= t < g.tasks.len() implies (#[trigger] g.tasks[t]).inputs == h.tasks[t].inputs by {
    }
}

/// Once a prefix of the descriptors fails to replay, the whole list fails.
pub(crate) proof fn lemma_replay_none_extends(ds: Seq<TaskDescriptorView>, n: int)
    requires
        0 <= n <= ds.len(),
        replay(ds.take(n)) is None,
    ensures
        replay(ds) is None,
    decreases ds.len() - n,
{
    if n < ds.len() {
        assert(ds.take(n + 1).drop_last() =~= ds.take(n));
        lemma_replay_none_extends(ds, n + 1);
    } else {
        assert(ds.take(n) =~= ds);
    }
}

} // verus!
