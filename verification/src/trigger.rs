use vstd::prelude::*;
use crate::config::Workflow;

verus! {

/// The body of a trigger request: which workflows the session should run,
/// by exact name.
pub struct WebhookPayload {
    pub workflow_names: Vec<String>,
}

/// Whether one of the requested names is the given workflow name.
pub open spec fn name_requested(names: Seq<String>, name: Seq<char>) -> bool {
    exists|i: int| 0 <= i < names.len() && (#[trigger] names[i])@ == name
}

/// The workflows whose names were requested, in their original order.
pub open spec fn selected_workflows(workflows: Seq<Workflow>, names: Seq<String>) -> Seq<Workflow>
    decreases workflows.len(),
{
    if workflows.len() == 0 {
        Seq::empty()
    } else {
        let rest = selected_workflows(workflows.drop_last(), names);
        if name_requested(names, workflows.last().name@) {
            rest.push(workflows.last())
        } else {
            rest
        }
    }
}

/// Whether one of the requested names matches this workflow.
fn workflow_requested(payload: &WebhookPayload, workflow: &Workflow) -> (r: bool)
    ensures
        r == name_requested(payload.workflow_names@, workflow.name@),
{
    let n = payload.workflow_names.len();
    let mut i: usize = 0;
    while i < n
        invariant
            0 <= i <= n,
            n == payload.workflow_names@.len(),
            forall|k: int| 0 <= k < i ==> (#[trigger] payload.workflow_names@[k])@ != workflow.name@,
        decreases n - i,
    {
        if payload.workflow_names[i] == workflow.name {
            return true;
        }
        i = i + 1;
    }
    false
}

/// Selects the workflows a trigger request names. An empty selection is an
/// error, not a no-op: the session must have something to run.
pub fn filter_workflows(workflows: Vec<Workflow>, payload: &WebhookPayload) -> (r: Result<
    Vec<Workflow>,
    String,
>)
    ensures
        match r {
            Ok(v) => {
                &&& v@ == selected_workflows(workflows@, payload.workflow_names@)
                &&& v@.len() > 0
            },
            Err(m) => {
                &&& selected_workflows(workflows@, payload.workflow_names@).len() == 0
                &&& m@ == "No matching workflows found."@
            },
        },
{
    let ghost all = workflows@;
    let mut remaining = workflows;
    let n = remaining.len();
    let mut out: Vec<Workflow> = Vec::new();
    let mut i: usize = 0;
    while i < n
        invariant
            0 <= i <= n,
            n == all.len(),
            remaining@ =~= all.skip(i as int),
            out@ == selected_workflows(all.take(i as int), payload.workflow_names@),
        decreases n - i,
    {
        proof {
            assert(all.take(i + 1).drop_last() =~= all.take(i as int));
            assert(all.take(i + 1).last() == all[i as int]);
            assert(all.skip(i as int)[0] == all[i as int]);
        }
        let requested = workflow_requested(payload, &remaining[0]);
        let workflow = remaining.remove(0);
        proof {
            assert(remaining@ =~= all.skip(i + 1));
        }
        if requested {
            out.push(workflow);
        }
        i = i + 1;
    }
    proof {
        assert(all.take(n as int) =~= all);
    }
    if out.len() == 0 {
        Err(String::from_str("No matching workflows found."))
    } else {
        Ok(out)
    }
}

} // verus!
