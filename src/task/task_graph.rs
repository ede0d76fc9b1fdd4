use vstd::prelude::*;

use crate::task::graph_model::{
    accepts,
    consumers,
    descriptor_views,
    empty_graph,
    graph_input_deps,
    graph_wf,
    index_range,
    input_dep,
    inserted,
    lemma_inserted_wf,
    lemma_parent_list,
    lemma_replay_none_extends,
    lemma_sorted_insert_at,
    output_dep,
    output_deps,
    parent_list,
    project,
    project_task,
    replay,
    resolved_inputs,
    sorted_insert,
    source_fits,
    sources_fit,
    strictly_increasing,
    types_of,
    with_child,
    with_consumers,
    DependencyView,
    GraphView,
    TaskDescriptorView,
    TaskView,
};
use crate::task::type_descriptor::DataTypeDescriptor;
use crate::task::Error;

verus! {

/// A unique identifier for a task within a task graph, assigned based on insertion order.
///
/// The task graph keeps its tasks in topological order: a task can only name tasks that were
/// inserted before it as the sources of its inputs.
pub type TaskIndex = usize;

/// A unique identifier for a data-flow dependency within a task graph, assigned based on
/// insertion order.
pub type DataflowDependencyIndex = usize;

/// One positional input or output of a task: the task index and the position within it.
#[derive(Copy, Clone, Debug, PartialEq, Eq, Structural)]
pub struct TaskInputOutputIndex {
    pub task_idx: TaskIndex,
    pub position: usize,
}

/// A task within a task graph: its TDL function reference, its positional inputs and outputs
/// as data-flow dependencies, and the parent and child tasks that the data flow implies.
#[derive(Debug, Clone, PartialEq, Eq)]
pub struct Task {
    idx: TaskIndex,
    tdl_package: String,
    tdl_function: String,
    parent_indices: Vec<TaskIndex>,
    child_indices: Vec<TaskIndex>,
    input_dep_indices: Vec<DataflowDependencyIndex>,
    output_dep_indices: Vec<DataflowDependencyIndex>,
}

/// A data-flow dependency: a typed value with an optional source (`None` for a graph input,
/// else the task output that produces it) and the task inputs that consume it.
#[derive(Debug, Clone, PartialEq, Eq)]
pub struct DataflowDependency {
    index: DataflowDependencyIndex,
    type_descriptor: DataTypeDescriptor,
    src: Option<TaskInputOutputIndex>,
    dst: Vec<TaskInputOutputIndex>,
}

/// A self-contained descriptor of a task: everything [`TaskGraph::insert_task`] needs, and what
/// a serialized graph stores for each task.
#[derive(Debug, Clone, PartialEq, Eq)]
pub struct TaskDescriptor {
    /// The TDL package containing the task function to execute.
    pub tdl_package: String,
    /// The TDL function name to execute within the package.
    pub tdl_function: String,
    /// The data types of the task's positional inputs, in order.
    pub inputs: Vec<DataTypeDescriptor>,
    /// The data types of the task's positional outputs, in order.
    pub outputs: Vec<DataTypeDescriptor>,
    /// The source of each positional input: `None` when all inputs are graph inputs (an input
    /// task), else one task output per input.
    pub input_sources: Option<Vec<TaskInputOutputIndex>>,
}

/// A directed acyclic graph of tasks and their data-flow dependencies, both stored in
/// append-only arenas indexed by insertion order.
#[derive(Debug, PartialEq, Eq)]
pub struct TaskGraph {
    dataflow_deps: Vec<DataflowDependency>,
    tasks: Vec<Task>,
}

impl View for Task {
    type V = TaskView;

    closed spec fn view(&self) -> TaskView {
        TaskView {
            idx: self.idx,
            tdl_package: self.tdl_package@,
            tdl_function: self.tdl_function@,
            parents: self.parent_indices@,
            children: self.child_indices@,
            inputs: self.input_dep_indices@,
            outputs: self.output_dep_indices@,
        }
    }
}

impl View for DataflowDependency {
    type V = DependencyView;

    closed spec fn view(&self) -> DependencyView {
        DependencyView {
            index: self.index,
            ty: self.type_descriptor@,
            src: self.src,
            dst: self.dst@,
        }
    }
}

impl View for TaskDescriptor {
    type V = TaskDescriptorView;

    open spec fn view(&self) -> TaskDescriptorView {
        TaskDescriptorView {
            tdl_package: self.tdl_package@,
            tdl_function: self.tdl_function@,
            inputs: types_of(self.inputs@),
            outputs: types_of(self.outputs@),
            input_sources: match self.input_sources {
                Some(v) => Some(v@),
                None => None,
            },
        }
    }
}

impl View for TaskGraph {
    type V = GraphView;

    closed spec fn view(&self) -> GraphView {
        GraphView {
            tasks: self.tasks@.map_values(|t: Task| t@),
            deps: self.dataflow_deps@.map_values(|d: DataflowDependency| d@),
        }
    }
}

// ---------------------------------------------------------------------------------------------
// Tasks and dependencies.
// ---------------------------------------------------------------------------------------------

impl Task {
    pub fn get_index(&self) -> (r: TaskIndex)
        ensures
            r == self@.idx,
    {
        self.idx
    }

    pub fn get_num_parents(&self) -> (r: usize)
        ensures
            r == self@.parents.len(),
    {
        self.parent_indices.len()
    }

    pub fn get_num_children(&self) -> (r: usize)
        ensures
            r == self@.children.len(),
    {
        self.child_indices.len()
    }

    /// True when the task has no parent tasks, which makes it an input task of the graph.
    pub fn is_input_task(&self) -> (r: bool)
        ensures
            r == (self@.parents.len() == 0),
    {
        self.parent_indices.len() == 0
    }

    /// True when the task has no child tasks, which makes it an output task of the graph.
    pub fn is_output_task(&self) -> (r: bool)
        ensures
            r == (self@.children.len() == 0),
    {
        self.child_indices.len() == 0
    }

    pub fn get_parent_indices(&self) -> (r: &Vec<TaskIndex>)
        ensures
            r@ == self@.parents,
    {
        &self.parent_indices
    }

    pub fn get_child_indices(&self) -> (r: &Vec<TaskIndex>)
        ensures
            r@ == self@.children,
    {
        &self.child_indices
    }

    pub fn get_input_dep_indices(&self) -> (r: &Vec<DataflowDependencyIndex>)
        ensures
            r@ == self@.inputs,
    {
        &self.input_dep_indices
    }

    pub fn get_output_dep_indices(&self) -> (r: &Vec<DataflowDependencyIndex>)
        ensures
            r@ == self@.outputs,
    {
        &self.output_dep_indices
    }

    pub fn get_tdl_package(&self) -> (r: &str)
        ensures
            r@ == self@.tdl_package,
    {
        self.tdl_package.as_str()
    }

    pub fn get_tdl_function(&self) -> (r: &str)
        ensures
            r@ == self@.tdl_function,
    {
        self.tdl_function.as_str()
    }

    fn new(
        idx: TaskIndex,
        tdl_package: String,
        tdl_function: String,
        input_dep_indices: Vec<DataflowDependencyIndex>,
        output_dep_indices: Vec<DataflowDependencyIndex>,
        parent_indices: Vec<TaskIndex>,
    ) -> (r: Self)
        ensures
            r@ == (TaskView {
                idx,
                tdl_package: tdl_package@,
                tdl_function: tdl_function@,
                parents: parent_indices@,
                children: Seq::empty(),
                inputs: input_dep_indices@,
                outputs: output_dep_indices@,
            }),
    {
        Task {
            idx,
            tdl_package,
            tdl_function,
            parent_indices,
            child_indices: Vec::new(),
            input_dep_indices,
            output_dep_indices,
        }
    }

    /// Appends a child index; the caller keeps child lists free of repeats.
    fn add_child(&mut self, idx: TaskIndex)
        ensures
            final(self)@ == (TaskView { children: old(self)@.children.push(idx), ..old(self)@ }),
    {
        self.child_indices.push(idx);
    }
}

impl DataflowDependency {
    pub fn get_index(&self) -> (r: DataflowDependencyIndex)
        ensures
            r == self@.index,
    {
        self.index
    }

    pub fn get_type_descriptor(&self) -> (r: &DataTypeDescriptor)
        ensures
            r@ == self@.ty,
    {
        &self.type_descriptor
    }

    pub fn get_src(&self) -> (r: Option<TaskInputOutputIndex>)
        ensures
            r == self@.src,
    {
        self.src
    }

    pub fn get_dst(&self) -> (r: &Vec<TaskInputOutputIndex>)
        ensures
            r@ == self@.dst,
    {
        &self.dst
    }

    fn new(
        index: DataflowDependencyIndex,
        type_descriptor: DataTypeDescriptor,
        src: Option<TaskInputOutputIndex>,
    ) -> (r: Self)
        ensures
            r@ == (DependencyView { index, ty: type_descriptor@, src, dst: Seq::empty() }),
    {
        DataflowDependency { index, type_descriptor, src, dst: Vec::new() }
    }

    fn add_dst(&mut self, dst: TaskInputOutputIndex)
        ensures
            final(self)@ == (DependencyView { dst: old(self)@.dst.push(dst), ..old(self)@ }),
    {
        self.dst.push(dst);
    }
}

// ---------------------------------------------------------------------------------------------
// The graph.
// ---------------------------------------------------------------------------------------------

impl Default for TaskGraph {
    /// The empty graph.
    fn default() -> (r: Self)
        ensures
            r@ == empty_graph(),
            r.wf(),
    {
        TaskGraph::new()
    }
}

impl TaskGraph {
    /// The invariant that every graph built by insertions keeps.
    pub open spec fn wf(&self) -> bool {
        graph_wf(self@)
    }

    /// The empty graph.
    pub fn new() -> (r: Self)
        ensures
            r@ == empty_graph(),
            r.wf(),
    {
        let r = TaskGraph { dataflow_deps: Vec::new(), tasks: Vec::new() };
        assert(r@.tasks =~= Seq::<TaskView>::empty());
        assert(r@.deps =~= Seq::<DependencyView>::empty());
        r
    }

    /// Inserts a new task into the graph, after its whole descriptor has been validated
    /// against the graph: on failure the graph is left as it was.
    pub fn insert_task(&mut self, task_descriptor: TaskDescriptor) -> (r: Result<TaskIndex, Error>)
        ensures
            r is Ok <==> accepts(old(self)@, task_descriptor@),
            r matches Ok(i) ==> i == old(self)@.tasks.len() && final(self)@ == inserted(
                old(self)@,
                task_descriptor@,
            ),
            r matches Err(e) ==> e is InvalidTaskInputs && final(self)@ == old(self)@,
            old(self).wf() ==> final(self).wf(),
    {
        let ghost g0 = self@;
        let task_idx = self.get_next_task_index();
        let ghost d = task_descriptor@;
        let TaskDescriptor { tdl_package, tdl_function, inputs, outputs, input_sources } =
            task_descriptor;
        let (input_dep_indices, parent_indices) = match self.compute_and_update_dependencies_from_inputs(
            task_idx,
            &inputs,
            input_sources,
        ) {
            Ok(pair) => pair,
            Err(e) => {
                return Err(e);
            },
        };
        let ghost g1 = self@;
        let ghost base = g1.deps.len() as int;
        let mut output_dep_indices: Vec<DataflowDependencyIndex> = Vec::new();
        let mut position: usize = 0;
        while position < outputs.len()
            invariant
                position <= outputs.len(),
                base == g1.deps.len(),
                self@.tasks == g1.tasks,
                self@.deps == g1.deps + output_deps(
                    task_idx,
                    types_of(outputs@).take(position as int),
                    base,
                ),
                output_dep_indices@ == index_range(base, position as int),
            decreases outputs.len() - position,
        {
            let output_dep_idx = self.get_next_dataflow_dep_index();
            let output_dep = DataflowDependency::new(
                output_dep_idx,
                outputs[position].duplicate(),
                Some(TaskInputOutputIndex { task_idx, position }),
            );
            self.push_dependency(output_dep);
            output_dep_indices.push(output_dep_idx);
            proof {
                assert(output_deps(task_idx, types_of(outputs@).take(position + 1), base)
                    =~= output_deps(task_idx, types_of(outputs@).take(position as int), base).push(
                    output_dep@,
                ));
                assert(output_dep_indices@ =~= index_range(base, position + 1));
            }
            position = position + 1;
        }
        proof {
            assert(types_of(outputs@).take(outputs@.len() as int) =~= types_of(outputs@));
        }
        let task = Task::new(
            task_idx,
            tdl_package,
            tdl_function,
            input_dep_indices,
            output_dep_indices,
            parent_indices,
        );
        self.push_task(task);
        proof {
            assert(self@.tasks =~= inserted(g0, d).tasks);
            assert(self@.deps =~= inserted(g0, d).deps);
            assert(self.tasks.len() == self.tasks@.len());
            assert(self.dataflow_deps.len() == self.dataflow_deps@.len());
            assert forall|u: int| 0 <= u < self@.tasks.len() implies (#[trigger] self@.tasks[u]).inputs.len()
                <= usize::MAX by {
                assert(self.tasks@[u].input_dep_indices.len() == self@.tasks[u].inputs.len());
            }
            if graph_wf(g0) {
                lemma_inserted_wf(g0, d);
            }
        }
        Ok(task_idx)
    }

    /// The task at the given index, if there is one.
    pub fn get_task(&self, index: TaskIndex) -> (r: Option<&Task>)
        ensures
            r is Some <==> index < self@.tasks.len(),
            r matches Some(t) ==> t@ == self@.tasks[index as int],
    {
        if index < self.tasks.len() {
            Some(&self.tasks[index])
        } else {
            None
        }
    }

    /// The data-flow dependency that the given task input reads, if the input exists.
    pub fn get_task_input(&self, index: TaskInputOutputIndex) -> (r: Option<&DataflowDependency>)
        ensures
            r is Some <==> input_dep(self@, index) is Some,
            r matches Some(d) ==> d@ == self@.deps[input_dep(self@, index).unwrap() as int],
    {
        if index.task_idx < self.tasks.len() {
            let task = &self.tasks[index.task_idx];
            if index.position < task.input_dep_indices.len() {
                let j = task.input_dep_indices[index.position];
                if j < self.dataflow_deps.len() {
                    return Some(&self.dataflow_deps[j]);
                }
            }
        }
        None
    }

    /// The data-flow dependency that the given task output produces, if the output exists.
    pub fn get_task_output(&self, index: TaskInputOutputIndex) -> (r: Option<&DataflowDependency>)
        ensures
            r is Some <==> output_dep(self@, index) is Some,
            r matches Some(d) ==> d@ == self@.deps[output_dep(self@, index).unwrap() as int],
    {
        match self.output_dep_index(index) {
            Some(j) => Some(&self.dataflow_deps[j]),
            None => None,
        }
    }

    /// The index of the dependency that the given task output produces, if the output exists.
    fn output_dep_index(&self, index: TaskInputOutputIndex) -> (r: Option<DataflowDependencyIndex>)
        ensures
            r == output_dep(self@, index),
    {
        if index.task_idx < self.tasks.len() {
            let task = &self.tasks[index.task_idx];
            if index.position < task.output_dep_indices.len() {
                let j = task.output_dep_indices[index.position];
                if j < self.dataflow_deps.len() {
                    return Some(j);
                }
            }
        }
        None
    }

    /// Resolves the inputs of the task that is about to be inserted as `task_idx`, and, once
    /// they are all valid, registers it as a consumer of its input dependencies and as a child
    /// of its parents. On failure the graph is unchanged.
    fn compute_and_update_dependencies_from_inputs(
        &mut self,
        task_idx: TaskIndex,
        inputs: &Vec<DataTypeDescriptor>,
        input_sources: Option<Vec<TaskInputOutputIndex>>,
    ) -> (r: Result<(Vec<DataflowDependencyIndex>, Vec<TaskIndex>), Error>)
        requires
            task_idx == old(self)@.tasks.len(),
        ensures
            r is Ok <==> (match input_sources {
                None => true,
                Some(s) => sources_fit(old(self)@, types_of(inputs@), s@),
            }),
            r matches Err(e) ==> e is InvalidTaskInputs && final(self)@ == old(self)@,
            r matches Ok((ins, parents)) ==> match input_sources {
                None => {
                    &&& ins@ == index_range(old(self)@.deps.len() as int, inputs@.len() as int)
                    &&& parents@ == Seq::<TaskIndex>::empty()
                    &&& final(self)@ == (GraphView {
                        tasks: old(self)@.tasks,
                        deps: old(self)@.deps + graph_input_deps(
                            task_idx,
                            types_of(inputs@),
                            old(self)@.deps.len() as int,
                        ),
                    })
                },
                Some(s) => {
                    &&& ins@ == resolved_inputs(old(self)@, s@)
                    &&& parents@ == parent_list(s@)
                    &&& final(self)@ == (GraphView {
                        tasks: with_child(old(self)@.tasks, parents@, task_idx),
                        deps: with_consumers(old(self)@.deps, ins@, task_idx),
                    })
                },
            },
    {
        let ghost g0 = self@;
        match input_sources {
            Some(input_sources) => {
                let input_dep_indices = self.validate_and_retrieve_input_dep_indices(
                    inputs,
                    &input_sources,
                )?;
                proof {
                    assert forall|k: int| 0 <= k < input_dep_indices@.len() implies #[trigger] input_dep_indices@[k]
                        < g0.deps.len() by {
                        assert(source_fits(g0, input_sources@[k], types_of(inputs@)[k]));
                    }
                }
                self.attach_consumers(task_idx, &input_dep_indices);
                let parent_indices = sorted_parents(&input_sources);
                proof {
                    lemma_parent_list(input_sources@);
                    assert forall|k: int| 0 <= k < parent_indices@.len() implies parent_indices@[k]
                        < self@.tasks.len() by {
                        let u = parent_indices@[k];
                        assert(parent_indices@.contains(u));
                        let i = choose|i: int|
                            0 <= i < input_sources@.len() && (#[trigger] input_sources@[i]).task_idx
                                == u;
                        assert(source_fits(g0, input_sources@[i], types_of(inputs@)[i]));
                    }
                }
                self.register_child(&parent_indices, task_idx);
                Ok((input_dep_indices, parent_indices))
            },
            None => {
                let input_dep_indices = self.create_graph_inputs(task_idx, inputs);
                Ok((input_dep_indices, Vec::new()))
            },
        }
    }

    /// Checks the sources against the declared input types and returns the dependency that each
    /// source names.
    fn validate_and_retrieve_input_dep_indices(
        &self,
        input: &Vec<DataTypeDescriptor>,
        input_sources: &Vec<TaskInputOutputIndex>,
    ) -> (r: Result<Vec<DataflowDependencyIndex>, Error>)
        ensures
            r is Ok <==> sources_fit(self@, types_of(input@), input_sources@),
            r matches Ok(v) ==> v@ == resolved_inputs(self@, input_sources@),
            r matches Err(e) ==> e is InvalidTaskInputs,
    {
        let num_inputs = input.len();
        if num_inputs == 0 {
            return Err(Error::InvalidTaskInputs("input task cannot have input sources specified".to_owned()));
        }
        let num_input_sources = input_sources.len();
        if num_inputs != num_input_sources {
            return Err(Error::InvalidTaskInputs(count_mismatch_message(num_inputs, num_input_sources)));
        }
        let ghost types = types_of(input@);
        let mut input_dep_indices: Vec<DataflowDependencyIndex> = Vec::new();
        let mut input_position: usize = 0;
        while input_position < num_input_sources
            invariant
                num_inputs == input@.len() == input_sources@.len() == num_input_sources,
                types == types_of(input@),
                input_position <= num_input_sources,
                forall|i: int|
                    0 <= i < input_position ==> #[trigger] source_fits(
                        self@,
                        input_sources@[i],
                        types[i],
                    ),
                input_dep_indices@ == resolved_inputs(self@, input_sources@).take(
                    input_position as int,
                ),
            decreases num_input_sources - input_position,
        {
            let src_idx = input_sources[input_position];
            let dep_idx = match self.output_dep_index(src_idx) {
                Some(j) => j,
                None => {
                    proof {
                        assert(!source_fits(self@, input_sources@[input_position as int], types[input_position as int]));
                    }
                    return Err(Error::InvalidTaskInputs(invalid_source_message(input_position, src_idx)));
                },
            };
            let expected_type = &input[input_position];
            let actual_type = &self.dataflow_deps[dep_idx].type_descriptor;
            proof {
                assert(self@.deps[dep_idx as int] == self.dataflow_deps@[dep_idx as int]@);
            }
            if !expected_type.same_as(actual_type) {
                proof {
                    assert(types[input_position as int] == input@[input_position as int]@);
                    assert(!source_fits(self@, input_sources@[input_position as int], types[input_position as int]));
                }
                return Err(Error::InvalidTaskInputs(type_mismatch_message(input_position, expected_type, actual_type)));
            }
            input_dep_indices.push(dep_idx);
            proof {
                assert(input_dep_indices@ =~= resolved_inputs(self@, input_sources@).take(
                    input_position + 1,
                ));
            }
            input_position = input_position + 1;
        }
        proof {
            assert(resolved_inputs(self@, input_sources@).take(num_inputs as int) =~= resolved_inputs(
                self@,
                input_sources@,
            ));
        }
        Ok(input_dep_indices)
    }

    /// Appends the inputs of task `task_idx` to the consumer lists of the dependencies they read.
    fn attach_consumers(&mut self, task_idx: TaskIndex, input_dep_indices: &Vec<DataflowDependencyIndex>)
        requires
            forall|k: int| 0 <= k < input_dep_indices@.len() ==> #[trigger] input_dep_indices@[k] < old(self)@.deps.len(),
        ensures
            final(self)@ == (GraphView {
                tasks: old(self)@.tasks,
                deps: with_consumers(old(self)@.deps, input_dep_indices@, task_idx),
            }),
    {
        let ghost g0 = self@;
        let num_deps = self.dataflow_deps.len();
        let mut position: usize = 0;
        proof {
            assert(with_consumers(g0.deps, input_dep_indices@.take(0), task_idx) =~= g0.deps);
        }
        while position < input_dep_indices.len()
            invariant
                position <= input_dep_indices@.len(),
                num_deps == g0.deps.len(),
                forall|k: int| 0 <= k < input_dep_indices@.len() ==> #[trigger] input_dep_indices@[k] < g0.deps.len(),
                self@.tasks == g0.tasks,
                self.dataflow_deps@.len() == g0.deps.len(),
                self@.deps == with_consumers(g0.deps, input_dep_indices@.take(position as int), task_idx),
            decreases input_dep_indices@.len() - position,
        {
            let j = input_dep_indices[position];
            let ghost before = self@;
            self.dataflow_deps[j].add_dst(TaskInputOutputIndex { task_idx, position });
            proof {
                let next = input_dep_indices@.take(position + 1);
                let prev = input_dep_indices@.take(position as int);
                assert(next.drop_last() =~= prev);
                assert(self@.tasks =~= before.tasks);
                let loc = TaskInputOutputIndex { task_idx, position };
                assert forall|j2: int| 0 <= j2 < g0.deps.len() implies #[trigger] self@.deps[j2]
                    == with_consumers(g0.deps, next, task_idx)[j2] by {
                    assert((j2 as usize) as int == j2);
                    assert(next.last() == j);
                    assert(next.len() - 1 == position);
                    assert(consumers(next, j2 as usize, task_idx) == if j2 == j {
                        consumers(prev, j2 as usize, task_idx).push(loc)
                    } else {
                        consumers(prev, j2 as usize, task_idx)
                    });
                    if j2 == j {
                        assert(self@.deps[j2].dst == before.deps[j2].dst.push(loc));
                        assert(before.deps[j2].dst == g0.deps[j2].dst + consumers(prev, j2 as usize, task_idx));
                        assert(self@.deps[j2].dst =~= g0.deps[j2].dst + consumers(next, j2 as usize, task_idx));
                    } else {
                        assert(self@.deps[j2] == before.deps[j2]);
                    }
                }
                assert(self@.deps =~= with_consumers(g0.deps, next, task_idx));
            }
            position = position + 1;
        }
        proof {
            assert(input_dep_indices@.take(input_dep_indices@.len() as int) =~= input_dep_indices@);
        }
    }

    /// Appends `task_idx` once to the child list of each parent.
    fn register_child(&mut self, parent_indices: &Vec<TaskIndex>, task_idx: TaskIndex)
        requires
            strictly_increasing(parent_indices@),
            forall|k: int| 0 <= k < parent_indices@.len() ==> #[trigger] parent_indices@[k] < old(self)@.tasks.len(),
        ensures
            final(self)@ == (GraphView {
                tasks: with_child(old(self)@.tasks, parent_indices@, task_idx),
                deps: old(self)@.deps,
            }),
    {
        let ghost g0 = self@;
        let num_tasks = self.tasks.len();
        let mut k: usize = 0;
        proof {
            assert(with_child(g0.tasks, parent_indices@.take(0), task_idx) =~= g0.tasks);
        }
        while k < parent_indices.len()
            invariant
                k <= parent_indices@.len(),
                num_tasks == g0.tasks.len(),
                strictly_increasing(parent_indices@),
                forall|m: int| 0 <= m < parent_indices@.len() ==> #[trigger] parent_indices@[m] < g0.tasks.len(),
                self@.deps == g0.deps,
                self.tasks@.len() == g0.tasks.len(),
                self@.tasks == with_child(g0.tasks, parent_indices@.take(k as int), task_idx),
            decreases parent_indices@.len() - k,
        {
            let u = parent_indices[k];
            let ghost before = self@;
            self.tasks[u].add_child(task_idx);
            proof {
                let prev = parent_indices@.take(k as int);
                let next = parent_indices@.take(k + 1);
                assert(!prev.contains(u)) by {
                    if prev.contains(u) {
                        let m = choose|m: int| 0 <= m < prev.len() && prev[m] == u;
                        assert(parent_indices@[m] < parent_indices@[k as int]);
                    }
                }
                assert forall|w: usize| next.contains(w) <==> (prev.contains(w) || w == u) by {
                    if next.contains(w) {
                        let m = choose|m: int| 0 <= m < next.len() && next[m] == w;
                        if m < k {
                            assert(prev[m] == w);
                        }
                    }
                    if prev.contains(w) {
                        let m = choose|m: int| 0 <= m < prev.len() && prev[m] == w;
                        assert(next[m] == w);
                    }
                    if w == u {
                        assert(next[k as int] == w);
                    }
                }
                assert(self@.deps =~= before.deps);
                assert forall|w: int| 0 <= w < g0.tasks.len() implies #[trigger] self@.tasks[w]
                    == with_child(g0.tasks, next, task_idx)[w] by {
                    assert((w as usize) as int == w);
                    if w == u {
                        assert(next.contains(w as usize));
                        assert(self@.tasks[w].children == before.tasks[w].children.push(task_idx));
                        assert(!prev.contains(w as usize));
                        assert(before.tasks[w] == g0.tasks[w]);
                    } else {
                        assert(self@.tasks[w] == before.tasks[w]);
                        assert(w as usize != u);
                        assert(next.contains(w as usize) == prev.contains(w as usize));
                    }
                }
                assert(self@.tasks =~= with_child(g0.tasks, next, task_idx));
            }
            k = k + 1;
        }
        proof {
            assert(parent_indices@.take(parent_indices@.len() as int) =~= parent_indices@);
        }
    }

    /// Creates one source-less dependency per input of the input task `task_idx`, each
    /// consumed by that input.
    fn create_graph_inputs(&mut self, task_idx: TaskIndex, inputs: &Vec<DataTypeDescriptor>) -> (r: Vec<DataflowDependencyIndex>)
        ensures
            r@ == index_range(old(self)@.deps.len() as int, inputs@.len() as int),
            final(self)@ == (GraphView {
                tasks: old(self)@.tasks,
                deps: old(self)@.deps + graph_input_deps(task_idx, types_of(inputs@), old(self)@.deps.len() as int),
            }),
    {
        let ghost g0 = self@;
        let ghost base = g0.deps.len() as int;
        let mut input_dep_indices: Vec<DataflowDependencyIndex> = Vec::new();
        let mut position: usize = 0;
        while position < inputs.len()
            invariant
                position <= inputs@.len(),
                base == g0.deps.len(),
                self@.tasks == g0.tasks,
                self@.deps == g0.deps + graph_input_deps(task_idx, types_of(inputs@).take(position as int), base),
                input_dep_indices@ == index_range(base, position as int),
            decreases inputs@.len() - position,
        {
            let input_dep_idx = self.get_next_dataflow_dep_index();
            let mut input_dep = DataflowDependency::new(input_dep_idx, inputs[position].duplicate(), None);
            input_dep.add_dst(TaskInputOutputIndex { task_idx, position });
            let ghost dv = input_dep@;
            assert(input_dep_idx == base + position);
            assert(dv.ty == types_of(inputs@)[position as int]);
            assert(dv.dst =~= seq![TaskInputOutputIndex { task_idx, position }]);
            self.push_dependency(input_dep);
            input_dep_indices.push(input_dep_idx);
            proof {
                assert(graph_input_deps(task_idx, types_of(inputs@).take(position + 1), base)
                    =~= graph_input_deps(task_idx, types_of(inputs@).take(position as int), base).push(
                    dv,
                ));
                assert(input_dep_indices@ =~= index_range(base, position + 1));
            }
            position = position + 1;
        }
        proof {
            assert(types_of(inputs@).take(inputs@.len() as int) =~= types_of(inputs@));
        }
        input_dep_indices
    }

    fn push_dependency(&mut self, dep: DataflowDependency)
        ensures
            final(self)@ == (GraphView { tasks: old(self)@.tasks, deps: old(self)@.deps.push(dep@) }),
    {
        self.dataflow_deps.push(dep);
        proof {
            assert(self@.deps =~= old(self)@.deps.push(dep@));
        }
    }

    fn push_task(&mut self, task: Task)
        ensures
            final(self)@ == (GraphView { tasks: old(self)@.tasks.push(task@), deps: old(self)@.deps }),
    {
        self.tasks.push(task);
        proof {
            assert(self@.tasks =~= old(self)@.tasks.push(task@));
        }
    }

    fn get_next_dataflow_dep_index(&self) -> (r: DataflowDependencyIndex)
        ensures
            r == self@.deps.len(),
    {
        self.dataflow_deps.len()
    }

    fn get_next_task_index(&self) -> (r: TaskIndex)
        ensures
            r == self@.tasks.len(),
    {
        self.tasks.len()
    }
}

impl TaskDescriptor {
    /// A deep copy: the same descriptor in new storage.
    pub fn duplicate(&self) -> (r: Self)
        ensures
            r@ == self@,
    {
        TaskDescriptor {
            tdl_package: self.tdl_package.clone(),
            tdl_function: self.tdl_function.clone(),
            inputs: duplicate_types(&self.inputs),
            outputs: duplicate_types(&self.outputs),
            input_sources: match &self.input_sources {
                Some(v) => Some(copy_locators(v)),
                None => None,
            },
        }
    }
}

/// A deep copy of a list of type descriptors.
fn duplicate_types(v: &Vec<DataTypeDescriptor>) -> (r: Vec<DataTypeDescriptor>)
    ensures
        types_of(r@) == types_of(v@),
{
    let mut r: Vec<DataTypeDescriptor> = Vec::new();
    let mut i: usize = 0;
    while i < v.len()
        invariant
            i <= v@.len(),
            types_of(r@) == types_of(v@).take(i as int),
        decreases v@.len() - i,
    {
        let ghost prev = r@;
        assert(types_of(prev).len() == prev.len());
        r.push(v[i].duplicate());
        proof {
            assert forall|k: int| 0 <= k < i implies types_of(r@)[k] == types_of(prev)[k] by {
                assert(r@[k] == prev[k]);
            }
            assert(types_of(r@) =~= types_of(v@).take(i + 1));
        }
        i = i + 1;
    }
    proof {
        assert(types_of(v@).take(v@.len() as int) =~= types_of(v@));
    }
    r
}

/// A copy of a list of locators.
fn copy_locators(v: &Vec<TaskInputOutputIndex>) -> (r: Vec<TaskInputOutputIndex>)
    ensures
        r@ == v@,
{
    let mut r: Vec<TaskInputOutputIndex> = Vec::new();
    let mut i: usize = 0;
    while i < v.len()
        invariant
            i <= v@.len(),
            r@ == v@.take(i as int),
        decreases v@.len() - i,
    {
        r.push(v[i]);
        proof {
            assert(r@ =~= v@.take(i + 1));
        }
        i = i + 1;
    }
    proof {
        assert(v@.take(v@.len() as int) =~= v@);
    }
    r
}

impl TaskGraph {
    /// The types of the given dependencies, in order.
    fn dependency_types(&self, indices: &Vec<DataflowDependencyIndex>) -> (r: Vec<DataTypeDescriptor>)
        requires
            forall|k: int| 0 <= k < indices@.len() ==> #[trigger] indices@[k] < self@.deps.len(),
        ensures
            types_of(r@) == indices@.map_values(|j: DataflowDependencyIndex| self@.deps[j as int].ty),
    {
        let ghost want = indices@.map_values(|j: DataflowDependencyIndex| self@.deps[j as int].ty);
        let mut r: Vec<DataTypeDescriptor> = Vec::new();
        let mut i: usize = 0;
        while i < indices.len()
            invariant
                i <= indices@.len(),
                forall|k: int| 0 <= k < indices@.len() ==> #[trigger] indices@[k] < self@.deps.len(),
                want == indices@.map_values(|j: DataflowDependencyIndex| self@.deps[j as int].ty),
                types_of(r@) == want.take(i as int),
            decreases indices@.len() - i,
        {
            let j = indices[i];
            let ghost prev = r@;
            assert(types_of(prev).len() == prev.len());
            r.push(self.dataflow_deps[j].type_descriptor.duplicate());
            proof {
                assert forall|k: int| 0 <= k < i implies types_of(r@)[k] == types_of(prev)[k] by {
                    assert(r@[k] == prev[k]);
                }
                assert(self@.deps[j as int] == self.dataflow_deps@[j as int]@);
                assert(types_of(r@) =~= want.take(i + 1));
            }
            i = i + 1;
        }
        proof {
            assert(want.take(indices@.len() as int) =~= want);
        }
        r
    }

    /// The sources of the given dependencies, in order; each of them has one.
    fn dependency_sources(&self, indices: &Vec<DataflowDependencyIndex>) -> (r: Vec<TaskInputOutputIndex>)
        requires
            forall|k: int| 0 <= k < indices@.len() ==> #[trigger] indices@[k] < self@.deps.len(),
            forall|k: int| 0 <= k < indices@.len() ==> self@.deps[#[trigger] indices@[k] as int].src is Some,
        ensures
            r@ == indices@.map_values(|j: DataflowDependencyIndex| self@.deps[j as int].src.unwrap()),
    {
        let ghost want = indices@.map_values(|j: DataflowDependencyIndex| self@.deps[j as int].src.unwrap());
        let mut r: Vec<TaskInputOutputIndex> = Vec::new();
        let mut i: usize = 0;
        while i < indices.len()
            invariant
                i <= indices@.len(),
                forall|k: int| 0 <= k < indices@.len() ==> #[trigger] indices@[k] < self@.deps.len(),
                forall|k: int| 0 <= k < indices@.len() ==> self@.deps[#[trigger] indices@[k] as int].src is Some,
                want == indices@.map_values(|j: DataflowDependencyIndex| self@.deps[j as int].src.unwrap()),
                r@ == want.take(i as int),
            decreases indices@.len() - i,
        {
            let j = indices[i];
            proof {
                assert(self@.deps[j as int] == self.dataflow_deps@[j as int]@);
            }
            let src = self.dataflow_deps[j].src.unwrap();
            r.push(src);
            proof {
                assert(r@ =~= want.take(i + 1));
            }
            i = i + 1;
        }
        proof {
            assert(want.take(indices@.len() as int) =~= want);
        }
        r
    }

    /// The descriptor of one task: a pure projection of the graph.
    fn describe_task(&self, t: TaskIndex) -> (r: TaskDescriptor)
        requires
            self.wf(),
            t < self@.tasks.len(),
        ensures
            r@ == project_task(self@, self@.tasks[t as int]),
    {
        let task = &self.tasks[t];
        proof {
            assert(self@.tasks[t as int] == task@);
            assert forall|k: int| 0 <= k < task@.inputs.len() implies #[trigger] task@.inputs[k] < self@.deps.len() by {
                assert(self@.tasks[t as int].inputs[k] < self@.deps.len());
            }
            assert forall|k: int| 0 <= k < task@.outputs.len() implies #[trigger] task@.outputs[k] < self@.deps.len() by {
                assert(self@.tasks[t as int].outputs[k] < self@.deps.len());
            }
        }
        let inputs = self.dependency_types(&task.input_dep_indices);
        let outputs = self.dependency_types(&task.output_dep_indices);
        let input_sources = if task.parent_indices.len() == 0 {
            None
        } else {
            proof {
                assert forall|k: int| 0 <= k < task@.inputs.len() implies self@.deps[#[trigger] task@.inputs[k] as int].src is Some by {
                    assert(self@.deps[self@.tasks[t as int].inputs[k] as int].src is Some);
                }
            }
            Some(self.dependency_sources(&task.input_dep_indices))
        };
        TaskDescriptor {
            tdl_package: task.tdl_package.clone(),
            tdl_function: task.tdl_function.clone(),
            inputs,
            outputs,
            input_sources,
        }
    }

    /// The descriptors of all tasks, in index order: inserting them in order into an empty graph
    /// rebuilds this graph.
    pub fn to_task_descriptors(&self) -> (r: Vec<TaskDescriptor>)
        requires
            self.wf(),
        ensures
            descriptor_views(r@) == project(self@),
    {
        let mut r: Vec<TaskDescriptor> = Vec::new();
        let mut t: usize = 0;
        while t < self.tasks.len()
            invariant
                self.wf(),
                t <= self@.tasks.len(),
                self.tasks@.len() == self@.tasks.len(),
                descriptor_views(r@) == project(self@).take(t as int),
            decreases self@.tasks.len() - t,
        {
            let d = self.describe_task(t);
            let ghost prev = r@;
            assert(descriptor_views(prev).len() == prev.len());
            r.push(d);
            proof {
                assert forall|k: int| 0 <= k < t implies descriptor_views(r@)[k] == descriptor_views(prev)[k] by {
                    assert(r@[k] == prev[k]);
                }
                assert(descriptor_views(r@) =~= project(self@).take(t + 1));
            }
            t = t + 1;
        }
        proof {
            assert(project(self@).take(self@.tasks.len() as int) =~= project(self@));
        }
        r
    }

    /// Builds a graph by inserting the descriptors in order into an empty graph, through the
    /// same validation as [`TaskGraph::insert_task`]; fails on the first descriptor that the
    /// graph built so far does not accept.
    pub fn from_task_descriptors(tasks: Vec<TaskDescriptor>) -> (r: Result<TaskGraph, Error>)
        ensures
            replay(descriptor_views(tasks@)) is Some <==> r is Ok,
            r matches Ok(g) ==> Some(g@) == replay(descriptor_views(tasks@)) && g.wf(),
            r matches Err(e) ==> e is InvalidTaskInputs,
    {
        let ghost ds = descriptor_views(tasks@);
        let mut graph = TaskGraph::new();
        let mut idx: usize = 0;
        proof {
            assert(ds.take(0) =~= Seq::<TaskDescriptorView>::empty());
        }
        while idx < tasks.len()
            invariant
                idx <= tasks@.len(),
                ds == descriptor_views(tasks@),
                graph.wf(),
                replay(ds.take(idx as int)) == Some(graph@),
                graph@.tasks.len() == idx,
            decreases tasks@.len() - idx,
        {
            proof {
                assert(ds.take(idx + 1).drop_last() =~= ds.take(idx as int));
                assert(ds.take(idx + 1).last() == tasks@[idx as int]@);
            }
            let inserted_idx = match graph.insert_task(tasks[idx].duplicate()) {
                Ok(i) => i,
                Err(e) => {
                    proof {
                        lemma_replay_none_extends(ds, idx as int + 1);
                    }
                    return Err(e);
                },
            };
            if inserted_idx != idx {
                return Err(Error::CorruptedTaskOrder(corrupted_order_message(idx, inserted_idx)));
            }
            idx = idx + 1;
        }
        proof {
            assert(ds.take(tasks@.len() as int) =~= ds);
        }
        Ok(graph)
    }
}

/// Relies on `std::format!`: the message of a task that replay placed at another index.
#[verifier::external_body]
fn corrupted_order_message(expected: usize, found: usize) -> String {
    format!("task insertion order corrupted: expected index {expected}, got {found}")
}

/// The parents that the sources name: each task once, in increasing order.
fn sorted_parents(input_sources: &Vec<TaskInputOutputIndex>) -> (r: Vec<TaskIndex>)
    ensures
        r@ == parent_list(input_sources@),
{
    let mut parents: Vec<TaskIndex> = Vec::new();
    let mut i: usize = 0;
    while i < input_sources.len()
        invariant
            i <= input_sources@.len(),
            parents@ == parent_list(input_sources@.take(i as int)),
        decreases input_sources@.len() - i,
    {
        proof {
            lemma_parent_list(input_sources@.take(i as int));
            assert(input_sources@.take(i + 1).drop_last() =~= input_sources@.take(i as int));
        }
        insert_sorted(&mut parents, input_sources[i].task_idx);
        i = i + 1;
    }
    proof {
        assert(input_sources@.take(input_sources@.len() as int) =~= input_sources@);
    }
    parents
}

/// Puts `x` into its place in a strictly increasing vector, unless it is there already.
fn insert_sorted(v: &mut Vec<usize>, x: usize)
    ensures
        final(v)@ == sorted_insert(old(v)@, x),
{
    let mut k: usize = 0;
    while k < v.len() && v[k] < x
        invariant
            k <= v@.len(),
            v@ == old(v)@,
            forall|m: int| 0 <= m < k ==> v@[m] < x,
        decreases v@.len() - k,
    {
        k = k + 1;
    }
    proof {
        lemma_sorted_insert_at(v@, x, k as int);
    }
    if k < v.len() && v[k] == x {
        return;
    }
    v.insert(k, x);
    proof {
        assert(v@ =~= old(v)@.take(k as int).push(x) + old(v)@.skip(k as int));
    }
}

/// Relies on `std::format!`: the message of a count mismatch between inputs and sources.
#[verifier::external_body]
fn count_mismatch_message(num_inputs: usize, num_input_sources: usize) -> String {
    format!(
        "mismatched number of positional inputs ({num_inputs}) and input sources ({num_input_sources})."
    )
}

/// Relies on `std::format!`: the message of a source that names no task output.
#[verifier::external_body]
fn invalid_source_message(input_position: usize, src_idx: TaskInputOutputIndex) -> String {
    format!("invalid input source at position {input_position} with task output index: {src_idx:?}")
}

/// Relies on `std::format!`: the message of an input whose source has another type.
#[verifier::external_body]
fn type_mismatch_message(
    input_position: usize,
    expected_type: &DataTypeDescriptor,
    actual_type: &DataTypeDescriptor,
) -> String {
    format!(
        "mismatched input type for input at position {input_position}: expected {expected_type:?}, found {actual_type:?}"
    )
}

} // verus!
