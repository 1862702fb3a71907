//! The one composite store operation: inserting a message together with one
//! pending task per deliverable transport. The surrounding program runs it
//! inside a single database transaction, so either all rows are created or
//! none; in this model the operation always commits, and the contract states
//! exactly what one commit creates.

use vstd::prelude::*;

use crate::model::message::Message;
use crate::model::message::MessageModel;
use crate::model::task::Task;
use crate::model::task::TaskModel;
use crate::model::transport::Transport;

verus! {

/// The task row `t` is the pending snapshot of `tr` for message `mid`.
pub open spec fn task_snapshot_of(t: Task, tr: Transport, mid: i64, user_id: i64) -> bool {
    &&& t.message_id == mid
    &&& t.user_id == user_id
    &&& tr.chat_id matches Some(c) && t.chat_id@ == c@
    &&& t.transport == tr.id
    &&& t.transport_type@ == tr.transport_type@
    &&& t.state is Pending
    &&& t.retry_count == 0
    &&& t.reason is None
}

/// Creates exactly one message row and exactly one pending task row per given
/// transport, and returns the task ids in transport order.
pub fn insert_message(
    messages: &mut MessageModel,
    tasks: &mut TaskModel,
    user_id: i64,
    title: &str,
    content: &str,
    transports: &Vec<Transport>,
) -> (ids: Vec<i64>)
    requires
        old(messages).wf(),
        old(tasks).wf(),
        old(messages).next_id < i64::MAX,
        old(tasks).next_id + transports@.len() <= i64::MAX,
        forall|k: int| 0 <= k < transports@.len() ==> (#[trigger] transports@[k]).chat_id is Some,
    ensures
        final(messages).wf(),
        final(tasks).wf(),
        // exactly one message row is added, carrying the given text
        final(messages).next_id == old(messages).next_id + 1,
        final(messages).rows@.len() == old(messages).rows@.len() + 1,
        forall|i: int|
            0 <= i < old(messages).rows@.len() ==> final(messages).rows@[i] == old(
                messages,
            ).rows@[i],
        final(messages).rows@.last().id == old(messages).next_id,
        final(messages).rows@.last().user_id == user_id,
        final(messages).rows@.last().title@ == title@,
        final(messages).rows@.last().content@ == content@,
        // exactly one pending task row per transport is added, in order
        final(tasks).next_id == old(tasks).next_id + transports@.len(),
        final(tasks).rows@.len() == old(tasks).rows@.len() + transports@.len(),
        forall|i: int| 0 <= i < old(tasks).rows@.len() ==> final(tasks).rows@[i] == old(tasks).rows@[i],
        ids@.len() == transports@.len(),
        forall|k: int| 0 <= k < ids@.len() ==> #[trigger] ids@[k] == old(tasks).next_id + k,
        forall|k: int|
            0 <= k < transports@.len() ==> task_snapshot_of(
                #[trigger] final(tasks).rows@[old(tasks).rows@.len() + k],
                transports@[k],
                old(messages).next_id,
                user_id,
            ),
        forall|k: int|
            0 <= k < transports@.len() ==> (#[trigger] final(tasks).rows@[old(tasks).rows@.len()
                + k]).id == old(tasks).next_id + k,
    {
        let message = Message::new(user_id, title, content);
        let message_id = messages.insert(&message);
        let n = transports.len();
        let mut ids: Vec<i64> = Vec::new();
        let mut k: usize = 0;
        while k < n
            invariant
                0 <= k <= n,
                n == transports@.len(),
                forall|j: int|
                    0 <= j < transports@.len() ==> (#[trigger] transports@[j]).chat_id is Some,
                tasks.wf(),
                message_id == old(messages).next_id,
                tasks.next_id == old(tasks).next_id + k,
                old(tasks).next_id + n <= i64::MAX,
                tasks.rows@.len() == old(tasks).rows@.len() + k,
                forall|i: int|
                    0 <= i < old(tasks).rows@.len() ==> #[trigger] tasks.rows@[i] == old(
                        tasks,
                    ).rows@[i],
                ids@.len() == k,
                forall|j: int| 0 <= j < k ==> #[trigger] ids@[j] == old(tasks).next_id + j,
                forall|j: int|
                    0 <= j < k ==> task_snapshot_of(
                        #[trigger] tasks.rows@[old(tasks).rows@.len() + j],
                        transports@[j],
                        old(messages).next_id,
                        user_id,
                    ),
                forall|j: int|
                    0 <= j < k ==> (#[trigger] tasks.rows@[old(tasks).rows@.len() + j]).id == old(
                        tasks,
                    ).next_id + j,
            decreases n - k,
        {
            let task = Task::new(message_id, user_id, &transports[k]);
            let id = tasks.insert(&task);
            ids.push(id);
            k = k + 1;
        }
        ids
    }

} // verus!
