//! Push submission: look the user up by project credential, snapshot the
//! deliverable transports, create the message and its tasks in one atomic
//! step, and schedule every task id at the current time.

use vstd::prelude::*;
use vstd::string::*;

use crate::model::transaction::insert_message;
use crate::model::transaction::task_snapshot_of;
use crate::model::transport::Transport;
use crate::model::DbError;
use crate::service::tasks_evolve;
use crate::service::Context;
use crate::types::PushMessageResponse;

verus! {

/// Transports a push actually goes to: the user's connected, bound ones.
pub open spec fn deliverable_for(user_id: i64) -> spec_fn(Transport) -> bool {
    |t: Transport| t.user_id == user_id && t.deliverable()
}

/// The deliverable transports of the user behind `p`, in table order.
pub open spec fn push_targets(ctx: Context, p: Seq<char>) -> Seq<Transport> {
    ctx.transports.rows@.filter(deliverable_for(ctx.users.user_by_project(p).id))
}

/// Accepts one push: creates one message row and one pending task per
/// deliverable transport, and schedules all of them at `now`. Fails exactly
/// when no user carries the project credential.
pub fn push_message(ctx: &mut Context, project_id: &str, title: &str, content: &str, now: i64) -> (r:
    Result<PushMessageResponse, DbError>)
    requires
        old(ctx).inv(),
        old(ctx).messages.next_id < i64::MAX,
        old(ctx).tasks.next_id + old(ctx).transports.rows@.len() <= i64::MAX,
    ensures
        final(ctx).inv(),
        final(ctx).conf == old(ctx).conf,
        final(ctx).users == old(ctx).users,
        final(ctx).transports == old(ctx).transports,
        final(ctx).in_flight == old(ctx).in_flight,
        final(ctx).skipped == old(ctx).skipped,
        tasks_evolve(old(ctx).tasks, final(ctx).tasks),
        r is Ok <==> old(ctx).users.has_project_id(project_id@),
        match r {
            Err(e) => e is NotFound && *final(ctx) == *old(ctx),
            Ok(resp) => {
                let u = old(ctx).users.user_by_project(project_id@);
                let targets = push_targets(*old(ctx), project_id@);
                &&& resp.status@ == "queued"@
                // exactly one message row, carrying the given text
                &&& final(ctx).messages.next_id == old(ctx).messages.next_id + 1
                &&& final(ctx).messages.rows@.len() == old(ctx).messages.rows@.len() + 1
                &&& forall|i: int|
                    0 <= i < old(ctx).messages.rows@.len() ==> final(ctx).messages.rows@[i] == old(
                        ctx,
                    ).messages.rows@[i]
                &&& final(ctx).messages.rows@.last().id == old(ctx).messages.next_id
                &&& final(ctx).messages.rows@.last().user_id == u.id
                &&& final(ctx).messages.rows@.last().title@ == title@
                &&& final(ctx).messages.rows@.last().content@ == content@
                // exactly one pending task per deliverable transport, in order
                &&& final(ctx).tasks.next_id == old(ctx).tasks.next_id + targets.len()
                &&& final(ctx).tasks.rows@.len() == old(ctx).tasks.rows@.len() + targets.len()
                &&& forall|i: int|
                    0 <= i < old(ctx).tasks.rows@.len() ==> final(ctx).tasks.rows@[i] == old(
                        ctx,
                    ).tasks.rows@[i]
                &&& forall|k: int|
                    0 <= k < targets.len() ==> task_snapshot_of(
                        #[trigger] final(ctx).tasks.rows@[old(ctx).tasks.rows@.len() + k],
                        targets[k],
                        old(ctx).messages.next_id,
                        u.id,
                    )
                &&& forall|k: int|
                    0 <= k < targets.len() ==> (#[trigger] final(ctx).tasks.rows@[old(
                        ctx,
                    ).tasks.rows@.len() + k]).id == old(ctx).tasks.next_id + k
                // every new task is scheduled at `now`; nothing else moved
                &&& forall|y: i64|
                    old(ctx).tasks.next_id <= y < old(ctx).tasks.next_id + targets.len() ==> (
                    #[trigger] final(ctx).queue.has(y) && final(ctx).queue.score_of(y) == now)
                &&& forall|y: i64|
                    !(old(ctx).tasks.next_id <= y < old(ctx).tasks.next_id + targets.len()) ==> (
                    #[trigger] final(ctx).queue.has(y) <==> old(ctx).queue.has(y))
                &&& forall|y: i64|
                    !(old(ctx).tasks.next_id <= y < old(ctx).tasks.next_id + targets.len()) && old(
                        ctx,
                    ).queue.has(y) ==> #[trigger] final(ctx).queue.score_of(y) == old(
                        ctx,
                    ).queue.score_of(y)
            },
        },
{
    let user = match ctx.users.find_one_by_project_id(project_id) {
        Ok(u) => u,
        Err(e) => {
            return Err(e);
        },
    };
    let all = ctx.transports.find_all_by_user_id(user.id);
    let ghost owned = ctx.transports.rows@.filter(crate::model::transport::owned_by(user.id));
    proof {
        assert forall|j: int| 0 <= j < all@.len() implies (#[trigger] all@[j]).user_id
            == user.id by {
            Seq::lemma_filter_pred(
                ctx.transports.rows@,
                crate::model::transport::owned_by(user.id),
                j,
            );
        }
    }
    let mut targets: Vec<Transport> = Vec::new();
    let n = all.len();
    let mut i: usize = 0;
    while i < n
        invariant
            0 <= i <= n,
            n == all@.len(),
            targets@ == all@.take(i as int).filter(deliverable_for(user.id)),
            forall|j: int| 0 <= j < all@.len() ==> (#[trigger] all@[j]).user_id == user.id,
            forall|k: int| 0 <= k < targets@.len() ==> (#[trigger] targets@[k]).chat_id is Some,
        decreases n - i,
    {
        proof {
            reveal_with_fuel(Seq::<_>::filter, 2);
            assert(all@.take(i + 1).drop_last() =~= all@.take(i as int));
            assert(all@.take(i + 1).last() == all@[i as int]);
        }
        let t = &all[i];
        if t.connected && t.chat_id.is_some() {
            targets.push(all[i].clone());
        }
        i = i + 1;
    }
    proof {
        assert(all@.take(n as int) =~= all@);
        // filtering the user's rows by deliverability is filtering the table
        // by both at once
        lemma_filter_filter(
            ctx.transports.rows@,
            crate::model::transport::owned_by(user.id),
            deliverable_for(user.id),
        );
        assert(targets@ == push_targets(*ctx, project_id@));
        Seq::lemma_filter_len(owned, deliverable_for(user.id));
        Seq::lemma_filter_len(ctx.transports.rows@, crate::model::transport::owned_by(user.id));
    }
    let ids = insert_message(
        &mut ctx.messages,
        &mut ctx.tasks,
        user.id,
        title,
        content,
        &targets,
    );
    let m = ids.len();
    let mut items: Vec<(i64, i64)> = Vec::new();
    let mut k: usize = 0;
    while k < m
        invariant
            0 <= k <= m,
            m == ids@.len(),
            items@.len() == k,
            forall|j: int| 0 <= j < k ==> #[trigger] items@[j] == (ids@[j], now),
        decreases m - k,
    {
        items.push((ids[k], now));
        k = k + 1;
    }
    let ghost mid = *ctx;
    ctx.queue.add_many(&items);
    proof {
        let pre = *old(ctx);
        let post = *ctx;
        let base = pre.tasks.next_id as int;
        let cnt = items@.len() as int;
        assert forall|j: int, l: int|
            0 <= j < l < items@.len() implies (#[trigger] items@[j]).0 != (
        #[trigger] items@[l]).0 by {}
        assert forall|y: i64|
            crate::queue::names_id(items@, y) implies base <= y < base + cnt by {
            let j = choose|j: int| 0 <= j < items@.len() && (#[trigger] items@[j]).0 == y;
        }
        assert forall|y: i64|
            base <= y < base + cnt implies crate::queue::names_id(items@, y) by {
            let j = y - base;
            assert(items@[j].0 == y);
        }
        assert forall|y: i64|
            base <= y < base + cnt implies (post.queue.has(y) && post.queue.score_of(y)
            == now) by {
            let j = y - base;
            assert(items@[j].0 == y && items@[j].1 == now);
        }
        // the queue still names only live tasks
        assert forall|y: i64| #[trigger] post.queue.has(y) implies post.task_live(y) by {
            if crate::queue::names_id(items@, y) {
                let j = y - base;
                assert(post.tasks.rows@[pre.tasks.rows@.len() + j].id == y);
                assert(post.tasks.has_id(y));
                post.tasks.lemma_rows_unique(y);
                assert(post.tasks.task_of(y).state is Pending);
            } else {
                assert(pre.queue.has(y));
                assert(pre.task_live(y));
                pre.tasks.lemma_task_of(y);
                crate::model::task::lemma_task_of_same(pre.tasks, post.tasks, y);
            }
        }
        // worker-owned ids were allocated before, so they are untouched
        assert forall|i2: int|
            0 <= i2 < post.in_flight@.len() implies !post.queue.has(#[trigger] post.in_flight@[i2])
            && post.in_flight@[i2] < post.tasks.next_id by {
            let y = post.in_flight@[i2];
            assert(!pre.queue.has(y));
            assert(y < pre.tasks.next_id);
            assert(!crate::queue::names_id(items@, y));
        }
        // every live task is still covered
        assert forall|i2: int|
            0 <= i2 < post.tasks.rows@.len() && !(
            #[trigger] post.tasks.rows@[i2]).state.terminal() implies (post.queue.has(
            post.tasks.rows@[i2].id,
        ) || post.in_flight@.contains(post.tasks.rows@[i2].id) || post.skipped@.contains(
            post.tasks.rows@[i2].id,
        )) by {
            let y = post.tasks.rows@[i2].id;
            if i2 < pre.tasks.rows@.len() {
                assert(post.tasks.rows@[i2] == pre.tasks.rows@[i2]);
                assert(y < pre.tasks.next_id);
                assert(!crate::queue::names_id(items@, y));
                if pre.queue.has(y) {
                    assert(post.queue.has(y));
                }
            } else {
                let j = i2 - pre.tasks.rows@.len();
                assert(post.tasks.rows@[pre.tasks.rows@.len() + j].id == base + j);
                assert(items@[j].0 == y);
                assert(post.queue.has(y));
            }
        }
    }
    Ok(PushMessageResponse { status: String::from_str("queued") })
}

/// Filtering by ownership and then by deliverability is one filter by both.
proof fn lemma_filter_filter(
    s: Seq<Transport>,
    owned: spec_fn(Transport) -> bool,
    deliv: spec_fn(Transport) -> bool,
)
    requires
        forall|t: Transport| #[trigger] deliv(t) ==> owned(t),
    ensures
        s.filter(owned).filter(deliv) == s.filter(deliv),
    decreases s.len(),
{
    reveal_with_fuel(Seq::<_>::filter, 2);
    if s.len() == 0 {
        assert(s.filter(owned) =~= s);
    } else {
        lemma_filter_filter(s.drop_last(), owned, deliv);
        let d = s.drop_last();
        assert(s.filter(owned) == if owned(s.last()) {
            d.filter(owned).push(s.last())
        } else {
            d.filter(owned)
        });
        if owned(s.last()) {
            assert(s.filter(owned).drop_last() =~= d.filter(owned));
            assert(s.filter(owned).last() == s.last());
        }
    }
}

} // verus!
