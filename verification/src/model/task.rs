//! Delivery tasks: one scheduled attempt stream for one message through one
//! transport. The state machine is `pending -> retrying -> done`, with
//! `pending -> done` direct and `fail` reachable from any live state;
//! `done` and `fail` are terminal, and `retry_count` never decreases.

use vstd::prelude::*;
use vstd::string::*;

use crate::model::transport::Transport;
use crate::model::DbError;
use crate::strutil::str_eq;

verus! {

#[derive(Clone, Copy, PartialEq, Eq, Structural, Debug)]
pub enum TaskState {
    Pending,
    Retrying,
    Fail,
    Done,
}

impl TaskState {
    /// A task in a terminal state is never scheduled again.
    pub open spec fn terminal(self) -> bool {
        self is Done || self is Fail
    }

    /// The allowed transitions of the task state machine; a state may also
    /// stay where it is.
    pub open spec fn step_allowed(self, next: TaskState) -> bool {
        ||| self == next
        ||| (self is Pending && next is Retrying)
        ||| (self is Pending && next is Done)
        ||| (self is Retrying && next is Done)
        ||| (!self.terminal() && next is Fail)
    }

    /// The column value of a state, as the schema stores it.
    pub fn as_str(&self) -> (r: &'static str)
        ensures
            *self is Pending ==> r@ == "pending"@,
            *self is Retrying ==> r@ == "retrying"@,
            *self is Fail ==> r@ == "fail"@,
            *self is Done ==> r@ == "done"@,
    {
        match self {
            TaskState::Pending => "pending",
            TaskState::Retrying => "retrying",
            TaskState::Fail => "fail",
            TaskState::Done => "done",
        }
    }
}

pub struct Task {
    pub id: i64,
    pub message_id: i64,
    pub user_id: i64,
    /// Snapshot of the transport's chat id at enqueue time, so that re-binding
    /// a transport does not alter in-flight work.
    pub chat_id: String,
    /// The transport used for delivery.
    pub transport: i64,
    /// Snapshot of the transport's type at enqueue time.
    pub transport_type: String,
    pub state: TaskState,
    pub retry_count: i32,
    /// The last delivery error, once one occurred.
    pub reason: Option<String>,
    /// Unix seconds.
    pub creation_time: i64,
}

impl Clone for Task {
    fn clone(&self) -> (r: Self)
        ensures
            r == *self,
    {
        Task {
            id: self.id,
            message_id: self.message_id,
            user_id: self.user_id,
            chat_id: self.chat_id.clone(),
            transport: self.transport,
            transport_type: self.transport_type.clone(),
            state: self.state,
            retry_count: self.retry_count,
            reason: match &self.reason {
                Some(s) => Some(s.clone()),
                None => None,
            },
            creation_time: self.creation_time,
        }
    }
}

impl Task {
    /// A fresh pending task for a deliverable transport, before insertion.
    pub fn new(message_id: i64, user_id: i64, transport: &Transport) -> (r: Task)
        requires
            transport.chat_id is Some,
        ensures
            r.id == 0,
            r.message_id == message_id,
            r.user_id == user_id,
            r.chat_id@ == transport.chat_id.unwrap()@,
            r.transport == transport.id,
            r.transport_type@ == transport.transport_type@,
            r.state is Pending,
            r.retry_count == 0,
            r.reason is None,
    {
        let chat_id = match &transport.chat_id {
            Some(c) => c.clone(),
            None => String::new(),
        };
        Task {
            id: 0,
            message_id,
            user_id,
            chat_id,
            transport: transport.id,
            transport_type: transport.transport_type.clone(),
            state: TaskState::Pending,
            retry_count: 0,
            reason: None,
            creation_time: crate::clock::now_ts(),
        }
    }
}

/// Row `f` is row `o` with the state column replaced.
pub open spec fn task_with_state(o: Task, f: Task, s: TaskState) -> bool {
    &&& f.id == o.id
    &&& f.message_id == o.message_id
    &&& f.user_id == o.user_id
    &&& f.chat_id == o.chat_id
    &&& f.transport == o.transport
    &&& f.transport_type == o.transport_type
    &&& f.state == s
    &&& f.retry_count == o.retry_count
    &&& f.reason == o.reason
    &&& f.creation_time == o.creation_time
}

/// Row `f` is row `o` moved to `retrying`: the retry counter is advanced by
/// one and the reason recorded; everything else is untouched.
pub open spec fn task_retried(o: Task, f: Task, reason: Seq<char>) -> bool {
    &&& f.id == o.id
    &&& f.message_id == o.message_id
    &&& f.user_id == o.user_id
    &&& f.chat_id == o.chat_id
    &&& f.transport == o.transport
    &&& f.transport_type == o.transport_type
    &&& f.state is Retrying
    &&& f.retry_count == o.retry_count + 1
    &&& f.reason matches Some(rr) && rr@ == reason
    &&& f.creation_time == o.creation_time
}

/// If the row of `y` is untouched between two store states (same length, same
/// ids), then looking `y` up gives the same row in both.
pub proof fn lemma_task_of_same(pre: TaskModel, post: TaskModel, y: i64)
    requires
        pre.wf(),
        post.wf(),
        pre.has_id(y),
        pre.idx_of(y) < post.rows@.len(),
        post.rows@[pre.idx_of(y)] == pre.rows@[pre.idx_of(y)],
    ensures
        post.has_id(y),
        post.task_of(y) == pre.task_of(y),
        post.idx_of(y) == pre.idx_of(y),
{
    pre.lemma_task_of(y);
    let i = pre.idx_of(y);
    assert(post.rows@[i].id == y);
    assert(post.has_id(y));
    post.lemma_rows_unique(y);
}

pub struct TaskModel {
    pub rows: Vec<Task>,
    pub next_id: i64,
}

impl TaskModel {
    /// Well-formed table: ids positive, strictly increasing in table order
    /// (hence unique), below the allocator; retry counters never negative.
    pub open spec fn wf(self) -> bool {
        &&& 1 <= self.next_id
        &&& forall|i: int|
            0 <= i < self.rows.len() ==> 1 <= #[trigger] self.rows[i].id < self.next_id
        &&& forall|i: int, j: int|
            0 <= i < j < self.rows.len() ==> #[trigger] self.rows[i].id
                < #[trigger] self.rows[j].id
        &&& forall|i: int| 0 <= i < self.rows.len() ==> (#[trigger] self.rows[i]).retry_count >= 0
    }

    pub open spec fn has_id(self, id: i64) -> bool {
        exists|i: int| 0 <= i < self.rows.len() && #[trigger] self.rows[i].id == id
    }

    /// The index of the row with this id (meaningful under `has_id`).
    pub open spec fn idx_of(self, id: i64) -> int {
        choose|i: int| 0 <= i < self.rows.len() && #[trigger] self.rows[i].id == id
    }

    /// The row with this id (meaningful under `has_id`).
    pub open spec fn task_of(self, id: i64) -> Task {
        self.rows[self.idx_of(id)]
    }

    pub proof fn lemma_task_of(self, id: i64)
        requires
            self.has_id(id),
        ensures
            0 <= self.idx_of(id) < self.rows.len(),
            self.task_of(id).id == id,
    {
    }

    /// Allocated ids are positive and below the allocator.
    pub proof fn lemma_id_bound(self, id: i64)
        requires
            self.wf(),
            self.has_id(id),
        ensures
            1 <= id < self.next_id,
    {
        self.lemma_task_of(id);
    }

    /// Under well-formedness, the row of an id is unique.
    pub proof fn lemma_rows_unique(self, id: i64)
        requires
            self.wf(),
            self.has_id(id),
        ensures
            forall|i: int|
                0 <= i < self.rows@.len() && (#[trigger] self.rows@[i]).id == id ==> i
                    == self.idx_of(id),
    {
        self.lemma_task_of(id);
        let j = self.idx_of(id);
        assert forall|i: int|
            0 <= i < self.rows@.len() && (#[trigger] self.rows@[i]).id == id implies i == j by {
            if i < j {
                assert(self.rows@[i].id < self.rows@[j].id);
            } else if i > j {
                assert(self.rows@[j].id < self.rows@[i].id);
            }
        }
    }

    pub fn new() -> (r: Self)
        ensures
            r.wf(),
            r.rows@.len() == 0,
            r.next_id == 1,
    {
        TaskModel { rows: Vec::new(), next_id: 1 }
    }

    /// Inserts a fresh row, assigning its id.
    pub fn insert(&mut self, data: &Task) -> (id: i64)
        requires
            old(self).wf(),
            old(self).next_id < i64::MAX,
            data.retry_count >= 0,
        ensures
            final(self).wf(),
            id == old(self).next_id,
            final(self).next_id == old(self).next_id + 1,
            final(self).rows@ == old(self).rows@.push(
                (Task {
                    id: old(self).next_id,
                    message_id: data.message_id,
                    user_id: data.user_id,
                    chat_id: data.chat_id,
                    transport: data.transport,
                    transport_type: data.transport_type,
                    state: data.state,
                    retry_count: data.retry_count,
                    reason: data.reason,
                    creation_time: data.creation_time,
                }),
            ),
    {
        let id = self.next_id;
        let mut row = data.clone();
        row.id = id;
        self.rows.push(row);
        self.next_id = self.next_id + 1;
        id
    }

    pub fn find_one_by_id(&self, id: i64) -> (r: Result<Task, DbError>)
        requires
            self.wf(),
        ensures
            r is Ok <==> self.has_id(id),
            match r {
                Ok(t) => self.has_id(id) && t == self.task_of(id) && t.id == id,
                Err(e) => e is NotFound,
            },
    {
        let n = self.rows.len();
        let mut i: usize = 0;
        while i < n
            invariant
                0 <= i <= n,
                n == self.rows.len(),
                self.wf(),
                forall|j: int| 0 <= j < i ==> #[trigger] self.rows[j].id != id,
            decreases n - i,
        {
            if self.rows[i].id == id {
                proof {
                    assert(self.has_id(id));
                    self.lemma_task_of(id);
                    // Ids are unique, so the found index is the chosen one.
                    assert(self.idx_of(id) == i as int);
                }
                return Ok(self.rows[i].clone());
            }
            i = i + 1;
        }
        Err(DbError::NotFound)
    }

    /// Marks the task delivered. Only a live (pending or retrying) task may be
    /// marked done; `done` and `fail` are terminal.
    pub fn set_done(&mut self, id: i64)
        requires
            old(self).wf(),
            forall|i: int|
                0 <= i < old(self).rows.len() && #[trigger] old(self).rows[i].id == id ==> !old(
                    self,
                ).rows[i].state.terminal(),
        ensures
            final(self).wf(),
            final(self).rows@.len() == old(self).rows@.len(),
            final(self).next_id == old(self).next_id,
            forall|i: int|
                0 <= i < old(self).rows@.len() ==> if old(self).rows@[i].id == id {
                    task_with_state(old(self).rows@[i], #[trigger] final(self).rows@[i], TaskState::Done)
                } else {
                    final(self).rows@[i] == old(self).rows@[i]
                },
    {
        let n = self.rows.len();
        let mut i: usize = 0;
        while i < n
            invariant
                0 <= i <= n,
                n == self.rows.len(),
                self.wf(),
                self.next_id == old(self).next_id,
                forall|j: int| i <= j < n ==> #[trigger] self.rows@[j] == old(self).rows@[j],
                forall|j: int|
                    0 <= j < i ==> if old(self).rows@[j].id == id {
                        task_with_state(
                            old(self).rows@[j],
                            #[trigger] self.rows@[j],
                            TaskState::Done,
                        )
                    } else {
                        self.rows@[j] == old(self).rows@[j]
                    },
            decreases n - i,
        {
            if self.rows[i].id == id {
                let mut row = self.rows[i].clone();
                row.state = TaskState::Done;
                self.rows[i] = row;
            }
            i = i + 1;
        }
    }

    /// Records a failed attempt: moves the task to `retrying`, advances the
    /// retry counter and stores the reason. Only a live task may be retried.
    pub fn update_retry_state(&mut self, id: i64, reason: &str)
        requires
            old(self).wf(),
            forall|i: int|
                0 <= i < old(self).rows.len() && #[trigger] old(self).rows[i].id == id ==> (!old(
                    self,
                ).rows[i].state.terminal() && old(self).rows[i].retry_count < i32::MAX),
        ensures
            final(self).wf(),
            final(self).rows@.len() == old(self).rows@.len(),
            final(self).next_id == old(self).next_id,
            forall|i: int|
                0 <= i < old(self).rows@.len() ==> if old(self).rows@[i].id == id {
                    task_retried(old(self).rows@[i], #[trigger] final(self).rows@[i], reason@)
                } else {
                    final(self).rows@[i] == old(self).rows@[i]
                },
    {
        let n = self.rows.len();
        let mut i: usize = 0;
        while i < n
            invariant
                0 <= i <= n,
                n == self.rows.len(),
                self.wf(),
                self.next_id == old(self).next_id,
                forall|j: int| i <= j < n ==> #[trigger] self.rows@[j] == old(self).rows@[j],
                forall|j: int|
                    0 <= j < i ==> if old(self).rows@[j].id == id {
                        task_retried(old(self).rows@[j], #[trigger] self.rows@[j], reason@)
                    } else {
                        self.rows@[j] == old(self).rows@[j]
                    },
                forall|j: int|
                    0 <= j < n && #[trigger] old(self).rows[j].id == id ==> (!old(
                        self,
                    ).rows[j].state.terminal() && old(self).rows[j].retry_count < i32::MAX),
            decreases n - i,
        {
            if self.rows[i].id == id {
                let mut row = self.rows[i].clone();
                row.state = TaskState::Retrying;
                row.retry_count = row.retry_count + 1;
                row.reason = Some(String::from_str(reason));
                self.rows[i] = row;
            }
            i = i + 1;
        }
    }
}

} // verus!
