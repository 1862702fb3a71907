//! Messages: one row per submitted push, immutable once created.

use vstd::prelude::*;
use vstd::string::*;

use crate::model::DbError;

verus! {

pub struct Message {
    pub id: i64,
    pub user_id: i64,
    pub title: String,
    pub content: String,
    /// Unix seconds.
    pub creation_time: i64,
}

impl Clone for Message {
    fn clone(&self) -> (r: Self)
        ensures
            r == *self,
    {
        Message {
            id: self.id,
            user_id: self.user_id,
            title: self.title.clone(),
            content: self.content.clone(),
            creation_time: self.creation_time,
        }
    }
}

impl Message {
    /// A fresh row, before insertion (`id` is assigned by the store).
    pub fn new(user_id: i64, title: &str, content: &str) -> (r: Message)
        ensures
            r.id == 0,
            r.user_id == user_id,
            r.title@ == title@,
            r.content@ == content@,
    {
        Message {
            id: 0,
            user_id,
            title: String::from_str(title),
            content: String::from_str(content),
            creation_time: crate::clock::now_ts(),
        }
    }
}

/// The rows of a user, as a filter predicate.
pub open spec fn message_owned_by(user_id: i64) -> spec_fn(Message) -> bool {
    |m: Message| m.user_id == user_id
}

pub struct MessageModel {
    pub rows: Vec<Message>,
    pub next_id: i64,
}

impl MessageModel {
    /// Well-formed table: ids positive, strictly increasing in table order
    /// (hence unique), below the allocator.
    pub open spec fn wf(self) -> bool {
        &&& 1 <= self.next_id
        &&& forall|i: int|
            0 <= i < self.rows.len() ==> 1 <= #[trigger] self.rows[i].id < self.next_id
        &&& forall|i: int, j: int|
            0 <= i < j < self.rows.len() ==> #[trigger] self.rows[i].id
                < #[trigger] self.rows[j].id
    }

    pub open spec fn has_id(self, id: i64) -> bool {
        exists|i: int| 0 <= i < self.rows.len() && #[trigger] self.rows[i].id == id
    }

    /// The index of the row with this id (meaningful under `has_id`).
    pub open spec fn idx_of(self, id: i64) -> int {
        choose|i: int| 0 <= i < self.rows.len() && #[trigger] self.rows[i].id == id
    }

    /// The row with this id (meaningful under `has_id`).
    pub open spec fn message_of(self, id: i64) -> Message {
        self.rows[self.idx_of(id)]
    }

    pub proof fn lemma_message_of(self, id: i64)
        requires
            self.has_id(id),
        ensures
            0 <= self.idx_of(id) < self.rows.len(),
            self.message_of(id).id == id,
    {
    }

    pub fn new() -> (r: Self)
        ensures
            r.wf(),
            r.rows@.len() == 0,
            r.next_id == 1,
    {
        MessageModel { rows: Vec::new(), next_id: 1 }
    }

    /// Inserts a fresh row, assigning its id.
    pub fn insert(&mut self, data: &Message) -> (id: i64)
        requires
            old(self).wf(),
            old(self).next_id < i64::MAX,
        ensures
            final(self).wf(),
            id == old(self).next_id,
            final(self).next_id == old(self).next_id + 1,
            final(self).rows@ == old(self).rows@.push(
                (Message {
                    id: old(self).next_id,
                    user_id: data.user_id,
                    title: data.title,
                    content: data.content,
                    creation_time: data.creation_time,
                }),
            ),
    {
        let id = self.next_id;
        let mut row = data.clone();
        row.id = id;
        self.rows.push(row);
        self.next_id = self.next_id + 1;
        id
    }

    pub fn find_one_by_id(&self, id: i64) -> (r: Result<Message, DbError>)
        requires
            self.wf(),
        ensures
            r is Ok <==> self.has_id(id),
            match r {
                Ok(m) => self.has_id(id) && m == self.message_of(id) && m.id == id,
                Err(e) => e is NotFound,
            },
    {
        let n = self.rows.len();
        let mut i: usize = 0;
        while i < n
            invariant
                0 <= i <= n,
                n == self.rows.len(),
                self.wf(),
                forall|j: int| 0 <= j < i ==> #[trigger] self.rows[j].id != id,
            decreases n - i,
        {
            if self.rows[i].id == id {
                proof {
                    assert(self.has_id(id));
                    self.lemma_message_of(id);
                    let j = self.idx_of(id);
                    if j < i as int {
                        assert(self.rows[j].id < self.rows[i as int].id);
                    } else if j > i as int {
                        assert(self.rows[i as int].id < self.rows[j].id);
                    }
                }
                return Ok(self.rows[i].clone());
            }
            i = i + 1;
        }
        Err(DbError::NotFound)
    }

    /// All messages of a user, newest first (descending id).
    pub fn find_all_by_user_id(&self, user_id: i64) -> (r: Vec<Message>)
        requires
            self.wf(),
        ensures
            r@ == self.rows@.filter(message_owned_by(user_id)).reverse(),
    {
        let n = self.rows.len();
        let mut fwd: Vec<Message> = Vec::new();
        let mut i: usize = 0;
        while i < n
            invariant
                0 <= i <= n,
                n == self.rows.len(),
                fwd@ == self.rows@.take(i as int).filter(message_owned_by(user_id)),
            decreases n - i,
        {
            proof {
                reveal_with_fuel(Seq::<_>::filter, 2);
                assert(self.rows@.take(i + 1).drop_last() =~= self.rows@.take(i as int));
                assert(self.rows@.take(i + 1).last() == self.rows@[i as int]);
            }
            if self.rows[i].user_id == user_id {
                fwd.push(self.rows[i].clone());
            }
            i = i + 1;
        }
        proof {
            assert(self.rows@.take(n as int) =~= self.rows@);
        }
        let ghost full = self.rows@.filter(message_owned_by(user_id));
        let mut out: Vec<Message> = Vec::new();
        proof {
            assert(full.take(full.len() as int) =~= full);
            assert(full.skip(full.len() as int).reverse() =~= Seq::<Message>::empty());
        }
        loop
            invariant
                full == self.rows@.filter(message_owned_by(user_id)),
                fwd@.len() <= full.len(),
                fwd@ == full.take(fwd@.len() as int),
                out@ == full.skip(fwd@.len() as int).reverse(),
            decreases fwd@.len(),
        {
            let ghost k = fwd@.len() as int;
            match fwd.pop() {
                Some(m) => {
                    proof {
                        assert(full.take(k)[k - 1] == full[k - 1]);
                        assert(m == full[k - 1]);
                        assert(fwd@ =~= full.take(k - 1));
                    }
                    out.push(m);
                    proof {
                        assert(out@ =~= full.skip(k - 1).reverse());
                    }
                },
                None => {
                    proof {
                        assert(full.skip(0) =~= full);
                        assert(out@ == full.reverse());
                    }
                    return out;
                },
            }
        }
    }
}

} // verus!
