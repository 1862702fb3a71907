//! The delivery engine: dispatcher and worker transitions over the service
//! context, the jittered back-off formula, and strict round-robin assignment.

use vstd::prelude::*;
use vstd::arithmetic::div_mod::lemma_fundamental_div_mod_converse;
use vstd::arithmetic::div_mod::lemma_mod_multiples_vanish;
use vstd::arithmetic::div_mod::lemma_small_mod;

use crate::config::Config;
use crate::service::Context;
use crate::service::tasks_evolve;
use crate::transport::telegram::Telegram;
use crate::strutil::str_eq;

verus! {

/// The back-off before the next attempt, in seconds: `rc^4 + 15 + r*(rc+1)`
/// for retry count `rc` and jitter `r`.
pub open spec fn backoff_spec(rc: int, r: int) -> int {
    rc * rc * rc * rc + 15 + r * (rc + 1)
}

/// For a fixed retry count, the delay lies in
/// `[rc^4 + 15, rc^4 + 15 + 30*(rc+1))`, whatever jitter was drawn.
pub proof fn lemma_backoff_range(rc: int, r: int)
    requires
        0 <= rc,
        0 <= r < 30,
    ensures
        rc * rc * rc * rc + 15 <= backoff_spec(rc, r),
        backoff_spec(rc, r) < rc * rc * rc * rc + 15 + 30 * (rc + 1),
{
    assert(0 <= r * (rc + 1) && r * (rc + 1) < 30 * (rc + 1)) by (nonlinear_arith)
        requires
            0 <= r < 30,
            0 <= rc,
    ;
}

/// Relies on rand's `gen_range`: a fresh jitter, uniform in `[0, 30)`.
#[verifier::external_body]
pub fn gen_jitter() -> (r: i32)
    ensures
        0 <= r < 30,
{
    rand::Rng::gen_range(&mut rand::thread_rng(), 0..30)
}

/// Computes the back-off delay.
pub fn backoff_delay(retry_count: i32, r: i32) -> (d: i64)
    requires
        0 <= retry_count <= 215,
        0 <= r < 30,
    ensures
        d == backoff_spec(retry_count as int, r as int),
        15 <= d < 0x1_0000_0000,
{
    let rc = retry_count as i64;
    proof {
        assert(0 <= rc * rc <= 215 * 215) by (nonlinear_arith)
            requires
                0 <= rc <= 215,
        ;
        assert(0 <= rc * rc * rc <= 215 * 215 * 215) by (nonlinear_arith)
            requires
                0 <= rc <= 215,
        ;
        assert(0 <= rc * rc * rc * rc <= 215 * 215 * 215 * 215) by (nonlinear_arith)
            requires
                0 <= rc <= 215,
        ;
        assert(0 <= (r as i64) * (rc + 1) <= 30 * 216) by (nonlinear_arith)
            requires
                0 <= rc <= 215,
                0 <= r < 30,
        ;
    }
    rc * rc * rc * rc + 15 + (r as i64) * (rc + 1)
}

/// The worker count actually started: at least one.
pub fn effective_workers(workers: u32) -> (r: u32)
    ensures
        workers == 0 ==> r == 1,
        workers > 0 ==> r == workers,
{
    if workers == 0 {
        1
    } else {
        workers
    }
}

/// Selects the driver for a transport type; only the chat-bot type is known.
pub fn new_transporter(conf: &Config, name: &str) -> (r: Option<Telegram>)
    ensures
        r is Some <==> name@ == "telegram"@,
        r matches Some(t) ==> t.uri@ == conf.telegram.url@ + "bot"@ + conf.telegram.token@
            + "/sendMessage"@,
{
    if str_eq(name, "telegram") {
        Some(Telegram::new(conf.telegram.url.as_str(), conf.telegram.token.as_str()))
    } else {
        None
    }
}

/// Strict round-robin: the k-th id goes to worker `(next + k) % workers`, and
/// the cursor advances by the number of ids.
pub fn assign_round_robin(ids: &Vec<i64>, workers: usize, next: usize) -> (r: (
    Vec<(usize, i64)>,
    usize,
))
    requires
        workers >= 1,
        next < workers,
    ensures
        r.0@.len() == ids@.len(),
        forall|k: int| 0 <= k < ids@.len() ==> (#[trigger] r.0@[k]).1 == ids@[k],
        forall|k: int|
            0 <= k < ids@.len() ==> (#[trigger] r.0@[k]).0 as int == (next + k) % (workers as int),
        r.1 as int == (next + ids@.len()) % (workers as int),
        r.1 < workers,
{
    let n = ids.len();
    let mut out: Vec<(usize, i64)> = Vec::new();
    let mut cur: usize = next;
    let ghost w = workers as int;
    let ghost mut q: int = 0;
    proof {
        assert(0int * w == 0) by (nonlinear_arith);
    }
    let mut k: usize = 0;
    while k < n
        invariant
            0 <= k <= n,
            n == ids@.len(),
            workers >= 1,
            next < workers,
            w == workers as int,
            0 <= cur < workers,
            q >= 0,
            next + k == q * w + cur,
            out@.len() == k,
            forall|j: int| 0 <= j < k ==> (#[trigger] out@[j]).1 == ids@[j],
            forall|j: int| 0 <= j < k ==> (#[trigger] out@[j]).0 as int == (next + j) % w,
        decreases n - k,
    {
        proof {
            lemma_fundamental_div_mod_converse((next + k) as int, w, q, cur as int);
        }
        out.push((cur, ids[k]));
        if cur + 1 == workers {
            proof {
                assert((q + 1) * w == q * w + w) by (nonlinear_arith);
                q = q + 1;
            }
            cur = 0;
        } else {
            cur = cur + 1;
        }
        k = k + 1;
    }
    proof {
        lemma_fundamental_div_mod_converse((next + n) as int, w, q, cur as int);
    }
    (out, cur)
}

/// Drains the due entries of the queue into worker ownership and returns
/// their ids: the dispatcher's read side.
pub fn pop_due_tasks(ctx: &mut Context, now: i64) -> (r: Vec<i64>)
    requires
        old(ctx).inv(),
    ensures
        final(ctx).inv(),
        final(ctx).conf == old(ctx).conf,
        final(ctx).users == old(ctx).users,
        final(ctx).transports == old(ctx).transports,
        final(ctx).messages == old(ctx).messages,
        final(ctx).tasks == old(ctx).tasks,
        final(ctx).skipped == old(ctx).skipped,
        // the queue loses exactly the due entries
        forall|y: i64|
            #[trigger] final(ctx).queue.has(y) <==> (old(ctx).queue.has(y) && old(ctx).queue.score_of(y) > now),
        forall|y: i64|
            final(ctx).queue.has(y) ==> #[trigger] final(ctx).queue.score_of(y) == old(ctx).queue.score_of(y),
        // the due ids come out, each once, and are now worker-owned
        forall|k: int|
            0 <= k < r@.len() ==> old(ctx).queue.has(#[trigger] r@[k]) && old(ctx).queue.score_of(
                r@[k],
            ) <= now,
        forall|k: int, l: int| 0 <= k < l < r@.len() ==> r@[k] != r@[l],
        forall|y: i64| old(ctx).queue.has(y) && old(ctx).queue.score_of(y) <= now ==> r@.contains(y),
        final(ctx).in_flight@ == old(ctx).in_flight@ + r@,
        // each popped id names a live task
        forall|k: int| 0 <= k < r@.len() ==> final(ctx).task_live(#[trigger] r@[k]),
{
    let ids = ctx.queue.pop_due(now);
    let ghost base = *ctx;
    let n = ids.len();
    let mut k: usize = 0;
    while k < n
        invariant
            0 <= k <= n,
            n == ids@.len(),
            ctx.conf == base.conf,
            ctx.users == base.users,
            ctx.transports == base.transports,
            ctx.messages == base.messages,
            ctx.tasks == base.tasks,
            ctx.skipped == base.skipped,
            ctx.queue == base.queue,
            ctx.in_flight@ == base.in_flight@ + ids@.take(k as int),
        decreases n - k,
    {
        ctx.in_flight.push(ids[k]);
        proof {
            assert(ctx.in_flight@ =~= base.in_flight@ + ids@.take(k + 1));
        }
        k = k + 1;
    }
    proof {
        assert(ids@.take(n as int) =~= ids@);
        let pre = *old(ctx);
        let post = *ctx;
        let m = pre.in_flight@.len() as int;
        assert(post.in_flight@ == pre.in_flight@ + ids@);
        // popped ids name live tasks
        assert forall|k: int| 0 <= k < ids@.len() implies post.task_live(#[trigger] ids@[k]) by {
            assert(pre.queue.has(ids@[k]));
        }
        // worker-owned ids stay distinct
        assert forall|i: int, j: int|
            0 <= i < j < post.in_flight@.len() implies post.in_flight@[i]
            != post.in_flight@[j] by {
            if i < m && j >= m {
                assert(post.in_flight@[i] == pre.in_flight@[i]);
                assert(post.in_flight@[j] == ids@[j - m]);
                assert(!pre.queue.has(pre.in_flight@[i]));
                assert(pre.queue.has(ids@[j - m]));
            }
        }
        // ... and are never also queued
        assert forall|i: int|
            0 <= i < post.in_flight@.len() implies !post.queue.has(
            #[trigger] post.in_flight@[i],
        ) by {
            if i < m {
                assert(!pre.queue.has(pre.in_flight@[i]));
            } else {
                assert(post.in_flight@[i] == ids@[i - m]);
                assert(pre.queue.score_of(ids@[i - m]) <= now);
            }
        }
        // ... and were allocated
        assert forall|i: int|
            0 <= i < post.in_flight@.len() implies (#[trigger] post.in_flight@[i])
            < post.tasks.next_id by {
            if i >= m {
                assert(pre.queue.has(ids@[i - m]));
                assert(pre.tasks.has_id(ids@[i - m]));
                pre.tasks.lemma_id_bound(ids@[i - m]);
            }
        }
        // every live task is still covered
        assert forall|i: int|
            0 <= i < post.tasks.rows@.len() && !(#[trigger] post.tasks.rows@[i]).state.terminal()
            implies (post.queue.has(post.tasks.rows@[i].id) || post.in_flight@.contains(
            post.tasks.rows@[i].id,
        ) || post.skipped@.contains(post.tasks.rows@[i].id)) by {
            let y = post.tasks.rows@[i].id;
            if pre.queue.has(y) {
                if pre.queue.score_of(y) <= now {
                    assert(ids@.contains(y));
                    let k = choose|k: int| 0 <= k < ids@.len() && ids@[k] == y;
                    assert(post.in_flight@[m + k] == y);
                }
            } else if pre.in_flight@.contains(y) {
                let k = choose|k: int| 0 <= k < pre.in_flight@.len() && pre.in_flight@[k] == y;
                assert(post.in_flight@[k] == y);
            }
        }
    }
    ids
}

/// A worker abandons an id: the task, if it exists, is permanently
/// unscheduled. This is the fate of a task whose row cannot be loaded and of
/// one whose transport type has no driver.
pub fn worker_skip(ctx: &mut Context, task_id: i64)
    requires
        old(ctx).inv(),
        old(ctx).in_flight@.contains(task_id),
    ensures
        final(ctx).inv(),
        final(ctx).conf == old(ctx).conf,
        final(ctx).users == old(ctx).users,
        final(ctx).transports == old(ctx).transports,
        final(ctx).messages == old(ctx).messages,
        final(ctx).tasks == old(ctx).tasks,
        final(ctx).queue == old(ctx).queue,
        !final(ctx).in_flight@.contains(task_id),
        forall|y: i64|
            y != task_id ==> (final(ctx).in_flight@.contains(y) <==> old(ctx).in_flight@.contains(y)),
        final(ctx).skipped@ == old(ctx).skipped@.push(task_id),
{
    crate::service::remove_first_i64(&mut ctx.in_flight, task_id);
    ctx.skipped.push(task_id);
    proof {
        let pre = *old(ctx);
        let post = *ctx;
        assert forall|i: int|
            0 <= i < post.in_flight@.len() implies !post.queue.has(#[trigger] post.in_flight@[i])
            && post.in_flight@[i] < post.tasks.next_id by {
            let y = post.in_flight@[i];
            assert(post.in_flight@.contains(y));
            assert(pre.in_flight@.contains(y));
            let k = choose|k: int| 0 <= k < pre.in_flight@.len() && pre.in_flight@[k] == y;
        }
        assert forall|i: int|
            0 <= i < post.tasks.rows@.len() && !(#[trigger] post.tasks.rows@[i]).state.terminal()
            implies (post.queue.has(post.tasks.rows@[i].id) || post.in_flight@.contains(
            post.tasks.rows@[i].id,
        ) || post.skipped@.contains(post.tasks.rows@[i].id)) by {
            let y = post.tasks.rows@[i].id;
            if y == task_id {
                assert(post.skipped@[post.skipped@.len() - 1] == task_id);
            } else if pre.skipped@.contains(y) {
                let k = choose|k: int| 0 <= k < pre.skipped@.len() && pre.skipped@[k] == y;
                assert(post.skipped@[k] == y);
            }
        }
    }
}

/// A worker resolves an id after a delivery attempt: on success the task is
/// done; on failure it is moved to `retrying`, its reason recorded, and it is
/// re-queued `backoff_spec(retry_count, r)` seconds after `now`.
pub fn worker_finish(ctx: &mut Context, task_id: i64, outcome: Result<(), String>, now: i64, r: i32)
    requires
        old(ctx).inv(),
        old(ctx).in_flight@.contains(task_id),
        old(ctx).task_live(task_id),
        old(ctx).tasks.task_of(task_id).retry_count <= 215,
        0 <= r < 30,
        0 <= now <= 0x7fff_ffff_0000_0000i64,
    ensures
        final(ctx).inv(),
        final(ctx).conf == old(ctx).conf,
        final(ctx).users == old(ctx).users,
        final(ctx).transports == old(ctx).transports,
        final(ctx).messages == old(ctx).messages,
        final(ctx).skipped == old(ctx).skipped,
        tasks_evolve(old(ctx).tasks, final(ctx).tasks),
        final(ctx).tasks.rows@.len() == old(ctx).tasks.rows@.len(),
        final(ctx).tasks.next_id == old(ctx).tasks.next_id,
        !final(ctx).in_flight@.contains(task_id),
        forall|y: i64|
            y != task_id ==> (final(ctx).in_flight@.contains(y) <==> old(ctx).in_flight@.contains(y)),
        match outcome {
            Ok(_) => {
                &&& final(ctx).queue == old(ctx).queue
                &&& forall|i: int|
                    0 <= i < old(ctx).tasks.rows@.len() ==> if old(ctx).tasks.rows@[i].id
                        == task_id {
                        crate::model::task::task_with_state(
                            old(ctx).tasks.rows@[i],
                            #[trigger] final(ctx).tasks.rows@[i],
                            crate::model::task::TaskState::Done,
                        )
                    } else {
                        final(ctx).tasks.rows@[i] == old(ctx).tasks.rows@[i]
                    }
            },
            Err(e) => {
                &&& forall|i: int|
                    0 <= i < old(ctx).tasks.rows@.len() ==> if old(ctx).tasks.rows@[i].id
                        == task_id {
                        crate::model::task::task_retried(
                            old(ctx).tasks.rows@[i],
                            #[trigger] final(ctx).tasks.rows@[i],
                            e@,
                        )
                    } else {
                        final(ctx).tasks.rows@[i] == old(ctx).tasks.rows@[i]
                    }
                &&& final(ctx).queue.has(task_id)
                &&& final(ctx).queue.score_of(task_id) == now + backoff_spec(
                    old(ctx).tasks.task_of(task_id).retry_count as int,
                    r as int,
                )
                &&& forall|y: i64|
                    y != task_id ==> (#[trigger] final(ctx).queue.has(y) <==> old(ctx).queue.has(y))
                &&& forall|y: i64|
                    y != task_id && old(ctx).queue.has(y) ==> #[trigger] final(ctx).queue.score_of(y) == old(ctx).queue.score_of(y)
            },
        },
{
    proof {
        old(ctx).tasks.lemma_rows_unique(task_id);
    }
    match outcome {
        Ok(_) => {
            ctx.tasks.set_done(task_id);
            crate::service::remove_first_i64(&mut ctx.in_flight, task_id);
            proof {
                let pre = *old(ctx);
                let post = *ctx;
                assert(!pre.queue.has(task_id)) by {
                    let k = choose|k: int|
                        0 <= k < pre.in_flight@.len() && pre.in_flight@[k] == task_id;
                }
                assert forall|y: i64| #[trigger] post.queue.has(y) implies post.task_live(y) by {
                    assert(pre.task_live(y));
                    pre.tasks.lemma_rows_unique(y);
                    crate::model::task::lemma_task_of_same(pre.tasks, post.tasks, y);
                }
                assert forall|i: int|
                    0 <= i < post.in_flight@.len() implies !post.queue.has(
                    #[trigger] post.in_flight@[i],
                ) && post.in_flight@[i] < post.tasks.next_id by {
                    let y = post.in_flight@[i];
                    assert(post.in_flight@.contains(y));
                    assert(pre.in_flight@.contains(y));
                    let k = choose|k: int|
                        0 <= k < pre.in_flight@.len() && pre.in_flight@[k] == y;
                }
                assert forall|i: int|
                    0 <= i < post.tasks.rows@.len() && !(
                    #[trigger] post.tasks.rows@[i]).state.terminal() implies (post.queue.has(
                    post.tasks.rows@[i].id,
                ) || post.in_flight@.contains(post.tasks.rows@[i].id) || post.skipped@.contains(
                    post.tasks.rows@[i].id,
                )) by {
                    let y = post.tasks.rows@[i].id;
                    assert(pre.tasks.rows@[i].id == y);
                    if y != task_id {
                        assert(post.tasks.rows@[i] == pre.tasks.rows@[i]);
                        assert(!pre.tasks.rows@[i].state.terminal());
                    }
                }
            }
        },
        Err(reason) => {
            let found = ctx.tasks.find_one_by_id(task_id);
            let task = match found {
                Ok(t) => t,
                Err(_) => vstd::pervasive::unreached(),
            };
            let delay = backoff_delay(task.retry_count, r);
            ctx.queue.add(task_id, now + delay);
            ctx.tasks.update_retry_state(task_id, reason.as_str());
            crate::service::remove_first_i64(&mut ctx.in_flight, task_id);
            proof {
                let pre = *old(ctx);
                let post = *ctx;
                pre.tasks.lemma_task_of(task_id);
                assert(!pre.queue.has(task_id)) by {
                    let k = choose|k: int|
                        0 <= k < pre.in_flight@.len() && pre.in_flight@[k] == task_id;
                }
                // the retried row is live again and the lookup finds it
                assert(post.tasks.has_id(task_id)) by {
                    assert(post.tasks.rows@[pre.tasks.idx_of(task_id)].id == task_id);
                }
                post.tasks.lemma_rows_unique(task_id);
                assert(post.task_live(task_id));
                assert forall|y: i64| #[trigger] post.queue.has(y) && y != task_id implies
                    post.task_live(y) by {
                    assert(pre.queue.has(y));
                    assert(pre.task_live(y));
                    pre.tasks.lemma_rows_unique(y);
                    crate::model::task::lemma_task_of_same(pre.tasks, post.tasks, y);
                }
                assert forall|i: int|
                    0 <= i < post.in_flight@.len() implies !post.queue.has(
                    #[trigger] post.in_flight@[i],
                ) && post.in_flight@[i] < post.tasks.next_id by {
                    let y = post.in_flight@[i];
                    assert(post.in_flight@.contains(y));
                    assert(y != task_id);
                    assert(pre.in_flight@.contains(y));
                    let k = choose|k: int|
                        0 <= k < pre.in_flight@.len() && pre.in_flight@[k] == y;
                }
                assert forall|i: int|
                    0 <= i < post.tasks.rows@.len() && !(
                    #[trigger] post.tasks.rows@[i]).state.terminal() implies (post.queue.has(
                    post.tasks.rows@[i].id,
                ) || post.in_flight@.contains(post.tasks.rows@[i].id) || post.skipped@.contains(
                    post.tasks.rows@[i].id,
                )) by {
                    let y = post.tasks.rows@[i].id;
                    assert(pre.tasks.rows@[i].id == y);
                    if y != task_id {
                        assert(post.tasks.rows@[i] == pre.tasks.rows@[i]);
                        assert(!pre.tasks.rows@[i].state.terminal());
                        if pre.queue.has(y) {
                            assert(post.queue.has(y));
                        }
                    } else {
                        assert(post.queue.has(task_id));
                    }
                }
                assert(post.queue.score_of(task_id) == now + backoff_spec(
                    pre.tasks.task_of(task_id).retry_count as int,
                    r as int,
                ));
            }
        },
    }
}

/// What a worker decided for one consumed id.
pub enum WorkerPlan {
    /// The task row could not be loaded; the id was abandoned.
    Lost,
    /// No driver exists for the task's transport type; the task was abandoned.
    Skipped,
    /// The message row was missing; the task was rescheduled with back-off.
    Rescheduled,
    /// Everything was loaded: deliver this text to this chat, then resolve the
    /// attempt with `worker_finish`.
    Deliver { chat_id: String, title: String, content: String },
}

/// A worker consumes an id: loads the task, loads its message, resolves the
/// driver, and either abandons, reschedules, or hands back what to deliver.
pub fn worker_prepare(ctx: &mut Context, task_id: i64, now: i64, r: i32) -> (plan: WorkerPlan)
    requires
        old(ctx).inv(),
        old(ctx).in_flight@.contains(task_id),
        old(ctx).tasks.has_id(task_id) ==> !old(ctx).tasks.task_of(task_id).state.terminal()
            && old(ctx).tasks.task_of(task_id).retry_count <= 215,
        0 <= r < 30,
        0 <= now <= 0x7fff_ffff_0000_0000i64,
    ensures
        final(ctx).inv(),
        final(ctx).conf == old(ctx).conf,
        final(ctx).users == old(ctx).users,
        final(ctx).transports == old(ctx).transports,
        final(ctx).messages == old(ctx).messages,
        tasks_evolve(old(ctx).tasks, final(ctx).tasks),
        match plan {
            WorkerPlan::Lost => {
                &&& !old(ctx).tasks.has_id(task_id)
                &&& final(ctx).tasks == old(ctx).tasks
                &&& final(ctx).queue == old(ctx).queue
                &&& !final(ctx).in_flight@.contains(task_id)
                &&& final(ctx).skipped@ == old(ctx).skipped@.push(task_id)
            },
            WorkerPlan::Rescheduled => {
                &&& old(ctx).tasks.has_id(task_id)
                &&& !old(ctx).messages.has_id(old(ctx).tasks.task_of(task_id).message_id)
                &&& forall|i: int|
                    0 <= i < old(ctx).tasks.rows@.len() ==> if old(ctx).tasks.rows@[i].id
                        == task_id {
                        (#[trigger] final(ctx).tasks.rows@[i]).state is Retrying
                            && final(ctx).tasks.rows@[i].retry_count == old(
                            ctx,
                        ).tasks.rows@[i].retry_count + 1
                    } else {
                        final(ctx).tasks.rows@[i] == old(ctx).tasks.rows@[i]
                    }
                &&& final(ctx).queue.has(task_id)
                &&& final(ctx).queue.score_of(task_id) == now + backoff_spec(
                    old(ctx).tasks.task_of(task_id).retry_count as int,
                    r as int,
                )
                &&& !final(ctx).in_flight@.contains(task_id)
                &&& final(ctx).skipped == old(ctx).skipped
            },
            WorkerPlan::Skipped => {
                &&& old(ctx).tasks.has_id(task_id)
                &&& old(ctx).tasks.task_of(task_id).transport_type@ != "telegram"@
                &&& final(ctx).tasks == old(ctx).tasks
                &&& final(ctx).queue == old(ctx).queue
                &&& !final(ctx).in_flight@.contains(task_id)
                &&& final(ctx).skipped@ == old(ctx).skipped@.push(task_id)
            },
            WorkerPlan::Deliver { chat_id, title, content } => {
                &&& *final(ctx) == *old(ctx)
                &&& old(ctx).tasks.has_id(task_id)
                &&& old(ctx).tasks.task_of(task_id).transport_type@ == "telegram"@
                &&& chat_id@ == old(ctx).tasks.task_of(task_id).chat_id@
                &&& old(ctx).messages.has_id(old(ctx).tasks.task_of(task_id).message_id)
                &&& title@ == old(ctx).messages.message_of(
                    old(ctx).tasks.task_of(task_id).message_id,
                ).title@
                &&& content@ == old(ctx).messages.message_of(
                    old(ctx).tasks.task_of(task_id).message_id,
                ).content@
            },
        },
{
    let found = ctx.tasks.find_one_by_id(task_id);
    match found {
        Err(_) => {
            worker_skip(ctx, task_id);
            WorkerPlan::Lost
        },
        Ok(task) => {
            let msg = ctx.messages.find_one_by_id(task.message_id);
            match msg {
                Err(e) => {
                    let reason = crate::model::db_error_text(&e);
                    worker_finish(ctx, task_id, Err(reason), now, r);
                    WorkerPlan::Rescheduled
                },
                Ok(message) => {
                    let driver = new_transporter(&ctx.conf, task.transport_type.as_str());
                    if driver.is_some() {
                        WorkerPlan::Deliver {
                            chat_id: task.chat_id,
                            title: message.title,
                            content: message.content,
                        }
                    } else {
                        worker_skip(ctx, task_id);
                        WorkerPlan::Skipped
                    }
                },
            }
        },
    }
}

/// The worker slot of the k-th id handed out, with cursor `next`.
pub open spec fn rr_slot(next: int, k: int, wcount: int) -> int {
    (next + k) % wcount
}

/// How many of the first `n` round-robin slots land on worker `w`.
pub open spec fn rr_share(next: int, n: int, wcount: int, w: int) -> int
    decreases n,
{
    if n <= 0 {
        0
    } else {
        rr_share(next, n - 1, wcount, w) + if rr_slot(next, n - 1, wcount) == w {
            1int
        } else {
            0int
        }
    }
}

/// Slots repeat with period `wcount`.
proof fn lemma_rr_slot_period(next: int, k: int, wcount: int)
    requires
        wcount >= 1,
    ensures
        rr_slot(next, k + wcount, wcount) == rr_slot(next, k, wcount),
{
    lemma_mod_multiples_vanish(1, next + k, wcount);
    assert(next + (k + wcount) == wcount * 1 + (next + k));
}

/// Every window of `wcount` consecutive slots contains the same share as the
/// first window.
proof fn lemma_rr_window(next: int, a: int, wcount: int, w: int)
    requires
        wcount >= 1,
        a >= 0,
    ensures
        rr_share(next, a + wcount, wcount, w) - rr_share(next, a, wcount, w) == rr_share(
            next,
            wcount,
            wcount,
            w,
        ),
    decreases a,
{
    if a > 0 {
        lemma_rr_window(next, a - 1, wcount, w);
        lemma_rr_slot_period(next, a - 1, wcount);
    }
}

/// Counting the first `k` slots, only the unique hit `j0` contributes.
proof fn lemma_rr_count_below(next: int, wcount: int, w: int, j0: int, k: int)
    requires
        0 <= j0 < wcount,
        0 <= k <= wcount,
        forall|t: int| 0 <= t < wcount ==> (rr_slot(next, t, wcount) == w <==> t == j0),
    ensures
        rr_share(next, k, wcount, w) == if k > j0 {
            1int
        } else {
            0int
        },
    decreases k,
{
    if k > 0 {
        lemma_rr_count_below(next, wcount, w, j0, k - 1);
    }
}

/// The first window hands `w` exactly one id.
proof fn lemma_rr_first_window(next: int, wcount: int, w: int)
    requires
        0 <= next < wcount,
        0 <= w < wcount,
    ensures
        rr_share(next, wcount, wcount, w) == 1,
{
    let j0 = if w >= next {
        w - next
    } else {
        w - next + wcount
    };
    assert forall|t: int| 0 <= t < wcount implies (rr_slot(next, t, wcount) == w <==> t == j0) by {
        if next + t < wcount {
            lemma_small_mod((next + t) as nat, wcount as nat);
        } else {
            lemma_mod_multiples_vanish(1, next + t - wcount, wcount);
            assert(next + t == wcount * 1 + (next + t - wcount));
            lemma_small_mod((next + t - wcount) as nat, wcount as nat);
        }
    }
    lemma_rr_count_below(next, wcount, w, j0, wcount);
}

/// Strict round-robin is fair: over any `m` full rounds, every worker's share
/// is exactly `m`, wherever the cursor started.
pub proof fn lemma_round_robin_balanced(next: int, m: int, wcount: int, w: int)
    requires
        0 <= next < wcount,
        0 <= w < wcount,
        m >= 0,
    ensures
        rr_share(next, m * wcount, wcount, w) == m,
    decreases m,
{
    if m == 0 {
        assert(0int * wcount == 0) by (nonlinear_arith);
    } else {
        lemma_round_robin_balanced(next, m - 1, wcount, w);
        assert((m - 1) * wcount >= 0) by (nonlinear_arith)
            requires
                m >= 1,
                wcount >= 1,
        ;
        lemma_rr_window(next, (m - 1) * wcount, wcount, w);
        lemma_rr_first_window(next, wcount, w);
        assert(m * wcount == (m - 1) * wcount + wcount) by (nonlinear_arith);
    }
}

/// How many ids of an assignment went to worker `w`.
pub open spec fn worker_share(assign: Seq<(usize, i64)>, w: usize) -> int
    decreases assign.len(),
{
    if assign.len() == 0 {
        0
    } else {
        worker_share(assign.drop_last(), w) + if assign.last().0 == w {
            1int
        } else {
            0int
        }
    }
}

/// An assignment whose k-th id went to slot `(next + k) % wcount` gives `w`
/// the share of the first `len` slots.
proof fn lemma_share_matches(assign: Seq<(usize, i64)>, next: int, wcount: int, w: usize)
    requires
        wcount >= 1,
        forall|k: int|
            0 <= k < assign.len() ==> (#[trigger] assign[k]).0 as int == (next + k) % wcount,
    ensures
        worker_share(assign, w) == rr_share(next, assign.len() as int, wcount, w as int),
    decreases assign.len(),
{
    if assign.len() > 0 {
        let d = assign.drop_last();
        assert(forall|k: int| 0 <= k < d.len() ==> d[k] == assign[k]);
        lemma_share_matches(d, next, wcount, w);
        assert(assign.last().0 as int == rr_slot(next, assign.len() - 1, wcount));
    }
}

/// What `assign_round_robin` hands out over full rounds is balanced: with the
/// batch size a multiple of the worker count, every worker receives exactly
/// its equal share.
pub proof fn lemma_assignment_balanced(
    assign: Seq<(usize, i64)>,
    next: int,
    wcount: int,
    w: usize,
    m: int,
)
    requires
        wcount >= 1,
        0 <= next < wcount,
        (w as int) < wcount,
        m >= 0,
        assign.len() == m * wcount,
        forall|k: int|
            0 <= k < assign.len() ==> (#[trigger] assign[k]).0 as int == (next + k) % wcount,
    ensures
        worker_share(assign, w) == m,
{
    lemma_share_matches(assign, next, wcount, w);
    lemma_round_robin_balanced(next, m, wcount, w as int);
}

} // verus!
