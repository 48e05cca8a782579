//! The metric contexts of the workers of one pool, by worker. Every worker
//! reports its context when it starts; after that the set of workers stays
//! as it is, and a worker reaches only the context of its own.

use std::collections::HashMap;
use vstd::prelude::*;
use crate::metrics::CopContext;

verus! {

broadcast use vstd::std_specs::hash::group_hash_axioms;

/// The metric contexts of the workers of one pool, by the name of the
/// worker.
#[derive(Debug)]
pub struct CopContextPool {
    pub cop_ctxs: HashMap<u64, CopContext>,
}

/// The contexts after the workers of `started` reported theirs, in order:
/// a worker that reports again replaces what it reported before.
pub open spec fn spec_collected(started: Seq<(u64, CopContext)>) -> Map<u64, CopContext>
    decreases started.len(),
{
    if started.len() == 0 {
        Map::empty()
    } else {
        spec_collected(started.drop_last()).insert(started.last().0, started.last().1)
    }
}

impl View for CopContextPool {
    type V = Map<u64, CopContext>;

    open spec fn view(&self) -> Map<u64, CopContext> {
        self.cop_ctxs@
    }
}

impl CopContextPool {
    /// Gathers the contexts that the workers reported when they started,
    /// each with the name of its worker.
    pub fn from_iter(started: Vec<(u64, CopContext)>) -> (pool: CopContextPool)
        ensures
            pool@ == spec_collected(started@),
    {
        let ghost all = started@;
        let count = started.len();
        let mut rest = crate::host::reversed(started);
        let mut cop_ctxs: HashMap<u64, CopContext> = HashMap::new();
        let mut i: usize = 0;
        while i < count
            invariant
                i <= count,
                count == all.len(),
                rest@ == all.subrange(i as int, count as int).reverse(),
                cop_ctxs@ == spec_collected(all.subrange(0, i as int)),
            decreases count - i,
        {
            let (thread_id, cop_ctx) = rest.pop().unwrap();
            proof {
                assert(all.subrange(0, i + 1).drop_last() =~= all.subrange(0, i as int));
            }
            cop_ctxs.insert(thread_id, cop_ctx);
            i += 1;
        }
        assert(all.subrange(0, count as int) =~= all);
        CopContextPool { cop_ctxs }
    }

    /// The context of the worker `thread_id`, which is one of the pool.
    pub fn get_context(&self, thread_id: u64) -> (ctx: &CopContext)
        requires
            self@.contains_key(thread_id),
        ensures
            *ctx == self@[thread_id],
    {
        self.cop_ctxs.get(&thread_id).unwrap()
    }

    /// The number of workers that reported a context.
    pub fn len(&self) -> (n: usize)
        ensures
            n == self@.len(),
    {
        self.cop_ctxs.len()
    }
}

/// Every worker that reported a context is found in the pool, with the
/// context that it reported last.
pub proof fn lemma_known_worker_is_found(started: Seq<(u64, CopContext)>, i: int)
    requires
        0 <= i < started.len(),
    ensures
        spec_collected(started).contains_key(started[i].0),
        (forall|j: int| i < j < started.len() ==> started[j].0 != started[i].0)
            ==> spec_collected(started)[started[i].0] == started[i].1,
    decreases started.len(),
{
    if i < started.len() - 1 {
        lemma_known_worker_is_found(started.drop_last(), i);
    }
}

} // verus!
