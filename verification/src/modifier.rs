use vstd::prelude::*;

verus! {

/// One step of a request passing through modifier middleware.
#[derive(PartialEq, Eq, Structural)]
pub enum ModifyStep {
    /// The `i`-th modifier inspects and changes the request.
    Before(usize),
    /// The wrapped work answers the request.
    Handle,
    /// The `i`-th modifier changes the response.
    Modify(usize),
}

pub open spec fn befores(n: nat) -> Seq<ModifyStep>
    decreases n,
{
    if n == 0 {
        Seq::empty()
    } else {
        befores((n - 1) as nat).push(ModifyStep::Before((n - 1) as usize))
    }
}

pub open spec fn modifies(n: nat) -> Seq<ModifyStep>
    decreases n,
{
    if n == 0 {
        Seq::empty()
    } else {
        modifies((n - 1) as nat).push(ModifyStep::Modify((n - 1) as usize))
    }
}

/// The steps for `n` modifiers: each modifier's request step in
/// registration order, the work, and, when the work succeeded, each
/// modifier's response step in registration order. A failing work ends the
/// request with its error.
pub open spec fn modify_plan_spec(n: nat, work_ok: bool) -> Seq<ModifyStep> {
    befores(n) + seq![ModifyStep::Handle] + if work_ok {
        modifies(n)
    } else {
        Seq::empty()
    }
}

/// The steps a request takes through `n` modifiers.
pub fn modify_plan(n: usize, work_ok: bool) -> (r: Vec<ModifyStep>)
    ensures
        r@ == modify_plan_spec(n as nat, work_ok),
{
    let mut out: Vec<ModifyStep> = Vec::new();
    let mut i: usize = 0;
    while i < n
        invariant
            i <= n,
            out@ == befores(i as nat),
        decreases n - i,
    {
        out.push(ModifyStep::Before(i));
        i = i + 1;
    }
    out.push(ModifyStep::Handle);
    let ghost head = out@;
    if work_ok {
        let mut j: usize = 0;
        while j < n
            invariant
                j <= n,
                out@ == head + modifies(j as nat),
            decreases n - j,
        {
            out.push(ModifyStep::Modify(j));
            j = j + 1;
            assert(out@ =~= head + modifies(j as nat));
        }
    }
    assert(out@ =~= modify_plan_spec(n as nat, work_ok));
    out
}

proof fn lemma_befores(n: nat, i: int)
    requires
        0 <= i < n <= usize::MAX,
    ensures
        befores(n).len() == n,
        befores(n)[i] == ModifyStep::Before(i as usize),
    decreases n,
{
    if i < n - 1 {
        lemma_befores((n - 1) as nat, i);
    }
    lemma_befores_len((n - 1) as nat);
}

proof fn lemma_befores_len(n: nat)
    ensures
        befores(n).len() == n,
    decreases n,
{
    if n > 0 {
        lemma_befores_len((n - 1) as nat);
    }
}

proof fn lemma_modifies(n: nat, i: int)
    requires
        0 <= i < n <= usize::MAX,
    ensures
        modifies(n).len() == n,
        modifies(n)[i] == ModifyStep::Modify(i as usize),
    decreases n,
{
    if i < n - 1 {
        lemma_modifies((n - 1) as nat, i);
    }
    lemma_modifies_len((n - 1) as nat);
}

proof fn lemma_modifies_len(n: nat)
    ensures
        modifies(n).len() == n,
    decreases n,
{
    if n > 0 {
        lemma_modifies_len((n - 1) as nat);
    }
}

/// Law: every modifier changes the request before the work runs, in
/// registration order; when the work succeeds, every modifier then
/// changes the response, again in registration order.
pub proof fn law_modifiers_in_order(n: nat, work_ok: bool, i: int)
    requires
        0 <= i < n <= usize::MAX,
    ensures
        modify_plan_spec(n, work_ok)[i] == ModifyStep::Before(i as usize),
        modify_plan_spec(n, work_ok)[n as int] == ModifyStep::Handle,
        work_ok ==> modify_plan_spec(n, work_ok)[n + 1 + i] == ModifyStep::Modify(i as usize),
        work_ok ==> modify_plan_spec(n, work_ok).len() == 2 * n + 1,
        !work_ok ==> modify_plan_spec(n, work_ok).len() == n + 1,
{
    lemma_befores(n, i);
    lemma_modifies(n, i);
}

} // verus!
