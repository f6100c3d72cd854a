use vstd::prelude::*;

verus! {

/// A generator: the items to process, in the order they were pushed.
pub struct Geenie<I> {
    items: Vec<I>,
}

impl<I> Geenie<I> {
    pub closed spec fn items_spec(&self) -> Seq<I> {
        self.items@
    }

    pub fn new() -> (r: Geenie<I>)
        ensures
            r.items_spec().len() == 0,
    {
        Geenie { items: Vec::new() }
    }

    /// Adds an item after those pushed before.
    pub fn push(&mut self, item: I)
        ensures
            final(self).items_spec() == old(self).items_spec().push(item),
    {
        self.items.push(item);
    }

    /// The order in which the items are processed.
    pub fn into_run(self) -> (r: GeenieRun<I>)
        ensures
            r.pending() == self.items_spec(),
    {
        let mut stack: Vec<I> = Vec::new();
        let mut items = self.items;
        let ghost all = items@;
        while items.len() > 0
            invariant
                all == self.items_spec(),
                items@ + stack@.reverse() == all,
            decreases items@.len(),
        {
            let ghost before_items = items@;
            let ghost before_stack = stack@;
            let it = items.pop().unwrap();
            stack.push(it);
            assert(stack@.reverse() =~= seq![it] + before_stack.reverse());
            assert(items@ + stack@.reverse() =~= before_items + before_stack.reverse());
        }
        assert(stack@.reverse() =~= all);
        GeenieRun { stack }
    }
}

/// The items still to be processed. An item's follow-up items are
/// processed right after it, before any item that was pending before them,
/// so the items are processed in depth-first order.
pub struct GeenieRun<I> {
    stack: Vec<I>,
}

impl<I> GeenieRun<I> {
    /// The pending items, the next one first.
    pub closed spec fn pending(&self) -> Seq<I> {
        self.stack@.reverse()
    }

    /// Takes the next item to process.
    pub fn next(&mut self) -> (r: Option<I>)
        ensures
            old(self).pending().len() == 0 ==> r is None && final(self).pending().len() == 0,
            old(self).pending().len() > 0 ==> r == Some(old(self).pending()[0])
                && final(self).pending() == old(self).pending().drop_first(),
    {
        let ghost before = self.stack@;
        let r = self.stack.pop();
        proof {
            if before.len() > 0 {
                assert(before.reverse()[0] == before.last());
                assert(self.stack@.reverse() =~= before.reverse().drop_first());
            }
        }
        r
    }

    /// Queues the follow-up items that processing an item produced, in
    /// order, ahead of everything pending.
    pub fn follow_up(&mut self, items: Vec<I>)
        ensures
            final(self).pending() == items@ + old(self).pending(),
    {
        let mut items = items;
        let ghost all = items@;
        let ghost rest = self.stack@.reverse();
        while items.len() > 0
            invariant
                items@ + self.stack@.reverse() == all + rest,
            decreases items@.len(),
        {
            let ghost before_items = items@;
            let ghost before_stack = self.stack@;
            let it = items.pop().unwrap();
            self.stack.push(it);
            assert(self.stack@.reverse() =~= seq![it] + before_stack.reverse());
            assert(items@ + self.stack@.reverse() =~= before_items + before_stack.reverse());
        }
        assert(items@ =~= Seq::<I>::empty());
        assert(self.stack@.reverse() =~= all + rest);
    }
}

/// Commands to run in the project's directory once its files are written,
/// in order; running stops at the first that fails.
pub struct CommandList<C> {
    pub cmds: Vec<C>,
}

/// Law: processing an item and queuing its follow-ups runs them before any
/// item that was pending, and in the order they were produced.
pub proof fn law_follow_ups_first<I>(pending: Seq<I>, follow_ups: Seq<I>, k: int)
    requires
        0 <= k < follow_ups.len(),
    ensures
        (follow_ups + pending)[k] == follow_ups[k],
        (follow_ups + pending).subrange(follow_ups.len() as int, (follow_ups + pending).len() as int)
            == pending,
{
    assert((follow_ups + pending).subrange(
        follow_ups.len() as int,
        (follow_ups + pending).len() as int,
    ) =~= pending);
}

} // verus!
