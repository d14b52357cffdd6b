//! What running a schedule decides between the tasks: where each task reads its input
//! values from.

use vstd::prelude::*;

use super::schedule::{Task, TaskInput};

verus! {

/// The source of each input value of `task`: the index of the task that wrote it and the
/// index of that task's output channel.
pub open spec fn input_sources(task: Task) -> Seq<(usize, usize)> {
    task.inputs@.map_values(|input: TaskInput| (input.task_index, input.output_value_channel_index))
}

/// Whether the task that writes one of the input values of `task` has no outputs in
/// `outputs`, because it is disabled.
pub open spec fn source_disabled<V>(outputs: Seq<Option<V>>, task: Task) -> bool {
    exists|k: int| 0 <= k < task.inputs@.len() && #[trigger] outputs[task.inputs@[k].task_index as int] is None
}

/// Resolves the input values of `task` against the outputs of the tasks run before it, by
/// task index (`None` for a disabled task): the task and output channel of each input value,
/// in order; `None` where the task that writes one of them is disabled.
pub fn task_input_values<V>(outputs: &Vec<Option<V>>, task: &Task) -> (r: Option<Vec<(usize, usize)>>)
    requires
        forall|k: int| 0 <= k < task.inputs@.len() ==> #[trigger] task.inputs@[k].task_index < outputs@.len(),
    ensures
        r is None <==> source_disabled(outputs@, *task),
        r matches Some(sources) ==> sources@ == input_sources(*task),
{
    let mut sources: Vec<(usize, usize)> = Vec::new();
    let mut k: usize = 0;
    while k < task.inputs.len()
        invariant
            k <= task.inputs@.len(),
            forall|j: int| 0 <= j < task.inputs@.len() ==> #[trigger] task.inputs@[j].task_index < outputs@.len(),
            sources@ == input_sources(*task).take(k as int),
            forall|j: int| 0 <= j < k ==> outputs@[#[trigger] task.inputs@[j].task_index as int] is Some,
        decreases task.inputs@.len() - k,
    {
        let input = &task.inputs[k];
        if outputs[input.task_index].is_none() {
            assert(outputs@[task.inputs@[k as int].task_index as int] is None);
            return None;
        }
        sources.push((input.task_index, input.output_value_channel_index));
        assert(sources@ =~= input_sources(*task).take(k + 1));
        k = k + 1;
    }
    assert(input_sources(*task).take(k as int) =~= input_sources(*task));
    assert(!source_disabled(outputs@, *task));
    Some(sources)
}

} // verus!
