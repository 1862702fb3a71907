//! The service context: the stores, the delay queue, and the scheduling
//! state shared by the ingestion API, the dispatcher and the workers. The
//! system invariant ties them together:
//!
//! * every queued id belongs to a live (pending or retrying) task;
//! * every live task is either queued, owned by a worker, or was skipped;
//! * worker-owned ids are distinct, never simultaneously queued, and were
//!   allocated by the task store.

use vstd::prelude::*;

use crate::config::Config;
use crate::model::message::MessageModel;
use crate::model::task::TaskModel;
use crate::model::transport::TransportModel;
use crate::model::user::UserModel;
use crate::queue::DelayQueue;

verus! {

/// The task store only ever evolves along the state machine: rows are never
/// deleted, a row keeps its id, its state moves only along allowed edges, and
/// its retry counter never decreases.
pub open spec fn tasks_evolve(pre: TaskModel, post: TaskModel) -> bool {
    &&& pre.rows@.len() <= post.rows@.len()
    &&& forall|i: int|
        0 <= i < pre.rows@.len() ==> (#[trigger] pre.rows@[i]).id == (
        #[trigger] post.rows@[i]).id
    &&& forall|i: int|
        0 <= i < pre.rows@.len() ==> (#[trigger] pre.rows@[i]).state.step_allowed(
            post.rows@[i].state,
        )
    &&& forall|i: int|
        0 <= i < pre.rows@.len() ==> (#[trigger] pre.rows@[i]).retry_count
            <= post.rows@[i].retry_count
}

/// Task evolution composes across consecutive transitions.
pub proof fn lemma_tasks_evolve_trans(a: TaskModel, b: TaskModel, c: TaskModel)
    requires
        tasks_evolve(a, b),
        tasks_evolve(b, c),
    ensures
        tasks_evolve(a, c),
{
    assert forall|i: int|
        0 <= i < a.rows@.len() implies (#[trigger] a.rows@[i]).state.step_allowed(
        c.rows@[i].state,
    ) by {
        assert(a.rows@[i].state.step_allowed(b.rows@[i].state));
        assert(b.rows@[i].state.step_allowed(c.rows@[i].state));
    }
}

/// Law: every queue entry names a live task — a task row with that id exists
/// and is neither done nor failed.
pub proof fn lemma_queue_entries_live(ctx: Context, y: i64)
    requires
        ctx.inv(),
        ctx.queue.has(y),
    ensures
        ctx.task_live(y),
{
}

/// Law: every live (pending or retrying) task is accounted for: its id is in
/// the delay queue, owned by a worker, or was abandoned by one. Abandonment
/// (`skipped`) covers the tasks a worker gave up on — without it, a task
/// skipped for an unknown transport type would be scheduled nowhere.
pub proof fn lemma_live_tasks_covered(ctx: Context, i: int)
    requires
        ctx.inv(),
        0 <= i < ctx.tasks.rows@.len(),
        !ctx.tasks.rows@[i].state.terminal(),
    ensures
        ctx.queue.has(ctx.tasks.rows@[i].id) || ctx.in_flight@.contains(ctx.tasks.rows@[i].id)
            || ctx.skipped@.contains(ctx.tasks.rows@[i].id),
{
}

pub struct Context {
    pub conf: Config,
    pub users: UserModel,
    pub transports: TransportModel,
    pub messages: MessageModel,
    pub tasks: TaskModel,
    pub queue: DelayQueue,
    /// Ids handed to workers and not yet resolved.
    pub in_flight: Vec<i64>,
    /// Ids a worker abandoned: their tasks are permanently unscheduled.
    pub skipped: Vec<i64>,
}

impl Context {
    /// A task that is still owed a delivery attempt.
    pub open spec fn task_live(self, id: i64) -> bool {
        self.tasks.has_id(id) && !self.tasks.task_of(id).state.terminal()
    }

    /// The system invariant.
    pub open spec fn inv(self) -> bool {
        &&& self.users.wf()
        &&& self.transports.wf()
        &&& self.messages.wf()
        &&& self.tasks.wf()
        &&& self.queue.wf()
        // every queue entry names a live task
        &&& forall|y: i64| #[trigger] self.queue.has(y) ==> self.task_live(y)
        // worker-owned ids are distinct ...
        &&& forall|i: int, j: int|
            0 <= i < j < self.in_flight@.len() ==> self.in_flight@[i] != self.in_flight@[j]
        // ... never simultaneously queued ...
        &&& forall|i: int|
            0 <= i < self.in_flight@.len() ==> !self.queue.has(#[trigger] self.in_flight@[i])
        // ... and were allocated by the task store
        &&& forall|i: int|
            0 <= i < self.in_flight@.len() ==> (#[trigger] self.in_flight@[i]) < self.tasks.next_id
        // every live task is scheduled, worker-owned, or was skipped
        &&& forall|i: int|
            0 <= i < self.tasks.rows@.len() && !(#[trigger] self.tasks.rows@[i]).state.terminal()
                ==> (self.queue.has(self.tasks.rows@[i].id) || self.in_flight@.contains(
                self.tasks.rows@[i].id,
            ) || self.skipped@.contains(self.tasks.rows@[i].id))
    }

    /// An empty service over the given configuration.
    pub fn new(conf: Config) -> (r: Context)
        ensures
            r.inv(),
            r.users.rows@.len() == 0,
            r.transports.rows@.len() == 0,
            r.messages.rows@.len() == 0,
            r.tasks.rows@.len() == 0,
            r.queue.entries@.len() == 0,
            r.in_flight@.len() == 0,
            r.skipped@.len() == 0,
    {
        Context {
            conf,
            users: UserModel::new(),
            transports: TransportModel::new(),
            messages: MessageModel::new(),
            tasks: TaskModel::new(),
            queue: DelayQueue::new(),
            in_flight: Vec::new(),
            skipped: Vec::new(),
        }
    }
}

/// Removes the first occurrence of `x`; with distinct contents, `x` is gone
/// afterwards and everything else stays.
pub fn remove_first_i64(v: &mut Vec<i64>, x: i64)
    requires
        forall|i: int, j: int| 0 <= i < j < old(v)@.len() ==> old(v)@[i] != old(v)@[j],
    ensures
        forall|i: int, j: int| 0 <= i < j < final(v)@.len() ==> final(v)@[i] != final(v)@[j],
        !final(v)@.contains(x),
        forall|y: i64| y != x ==> (final(v)@.contains(y) <==> old(v)@.contains(y)),
        final(v)@.len() == old(v)@.len() - (if old(v)@.contains(x) {
            1int
        } else {
            0int
        }),
{
    let n = v.len();
    let mut i: usize = 0;
    while i < n
        invariant
            0 <= i <= n,
            n == v@.len(),
            *v == *old(v),
            forall|k: int| 0 <= k < i ==> v@[k] != x,
            forall|k: int, l: int| 0 <= k < l < v@.len() ==> v@[k] != v@[l],
        decreases n - i,
    {
        if v[i] == x {
            let ghost pre = v@;
            v.remove(i);
            proof {
                assert(v@ =~= pre.subrange(0, i as int) + pre.subrange(i + 1, pre.len() as int));
                assert(forall|k: int| 0 <= k < i ==> v@[k] == pre[k]);
                assert(forall|k: int| i <= k < v@.len() ==> v@[k] == pre[k + 1]);
                assert(pre.contains(x)) by {
                    assert(pre[i as int] == x);
                }
                assert forall|k: int| 0 <= k < v@.len() implies v@[k] != x by {
                    if k >= i {
                        assert(pre[k + 1] != pre[i as int]);
                    }
                }
                assert(!v@.contains(x));
                assert forall|y: i64| y != x && pre.contains(y) implies v@.contains(y) by {
                    let j0 = choose|j0: int| 0 <= j0 < pre.len() && pre[j0] == y;
                    let j1 = if j0 < i as int {
                        j0
                    } else {
                        j0 - 1
                    };
                    assert(v@[j1] == y);
                }
                assert forall|y: i64| y != x && v@.contains(y) implies pre.contains(y) by {
                    let j1 = choose|j1: int| 0 <= j1 < v@.len() && v@[j1] == y;
                    let j0 = if j1 < i as int {
                        j1
                    } else {
                        j1 + 1
                    };
                    assert(pre[j0] == y);
                }
            }
            return ;
        }
        i = i + 1;
    }
    proof {
        assert(!v@.contains(x));
        assert forall|y: i64| y != x implies (v@.contains(y) <==> old(v)@.contains(y)) by {}
    }
}

} // verus!
