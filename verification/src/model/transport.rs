//! Transports: a user's binding to an external messaging channel. At most one
//! transport exists per `(user, type)`; a transport is deliverable once it is
//! connected and carries the external chat id.

use vstd::prelude::*;
use vstd::string::*;

use crate::model::DbError;
use crate::strutil::str_eq;

verus! {

/// The one transport type the service currently ships.
pub fn telegram_type() -> (r: &'static str)
    ensures
        r@ == "telegram"@,
{
    "telegram"
}

pub struct Transport {
    pub id: i64,
    pub user_id: i64,
    pub transport_type: String,
    /// External chat identifier; present once the binding flow has run.
    pub chat_id: Option<String>,
    pub username: Option<String>,
    pub connected: bool,
    /// Unix seconds.
    pub creation_time: i64,
}

impl Clone for Transport {
    fn clone(&self) -> (r: Self)
        ensures
            r == *self,
    {
        Transport {
            id: self.id,
            user_id: self.user_id,
            transport_type: self.transport_type.clone(),
            chat_id: match &self.chat_id {
                Some(c) => Some(c.clone()),
                None => None,
            },
            username: match &self.username {
                Some(u) => Some(u.clone()),
                None => None,
            },
            connected: self.connected,
            creation_time: self.creation_time,
        }
    }
}

/// The rows of a user, as a filter predicate.
pub open spec fn owned_by(user_id: i64) -> spec_fn(Transport) -> bool {
    |t: Transport| t.user_id == user_id
}

/// Row `f` is row `o` re-bound to `chat_id` with the given `username`:
/// exactly those two columns change.
pub open spec fn rebound_to(o: Transport, f: Transport, username: Option<String>, chat_id: Seq<char>) -> bool {
    &&& f.id == o.id
    &&& f.user_id == o.user_id
    &&& f.transport_type == o.transport_type
    &&& f.connected == o.connected
    &&& f.creation_time == o.creation_time
    &&& f.chat_id matches Some(c) && c@ == chat_id
    &&& f.username == username
}

impl Transport {
    /// A transport can be delivered to once it is connected and bound.
    pub open spec fn deliverable(self) -> bool {
        self.connected && self.chat_id is Some
    }

    /// A fresh unbound row (`id` is assigned by the store).
    pub fn new(user_id: i64, transport_type: &str) -> (r: Transport)
        ensures
            r.id == 0,
            r.user_id == user_id,
            r.transport_type@ == transport_type@,
            r.chat_id is None,
            r.username is None,
            !r.connected,
    {
        Transport {
            id: 0,
            user_id,
            transport_type: String::from_str(transport_type),
            chat_id: None,
            username: None,
            connected: false,
            creation_time: crate::clock::now_ts(),
        }
    }
}

pub struct TransportModel {
    pub rows: Vec<Transport>,
    pub next_id: i64,
}

impl TransportModel {
    /// Well-formed table: ids positive, unique and below the allocator, and at
    /// most one row per `(user, type)`.
    pub open spec fn wf(self) -> bool {
        &&& 1 <= self.next_id
        &&& forall|i: int|
            0 <= i < self.rows.len() ==> 1 <= #[trigger] self.rows[i].id < self.next_id
        &&& forall|i: int, j: int|
            0 <= i < j < self.rows.len() ==> #[trigger] self.rows[i].id
                != #[trigger] self.rows[j].id
        &&& forall|i: int, j: int|
            0 <= i < j < self.rows.len() ==> !(self.rows[i].user_id == self.rows[j].user_id
                && self.rows[i].transport_type@ == self.rows[j].transport_type@)
    }

    pub open spec fn has_id(self, id: i64) -> bool {
        exists|i: int| 0 <= i < self.rows.len() && #[trigger] self.rows[i].id == id
    }

    pub open spec fn has_user_type(self, user_id: i64, t: Seq<char>) -> bool {
        exists|i: int|
            0 <= i < self.rows.len() && #[trigger] self.rows[i].user_id == user_id
                && self.rows[i].transport_type@ == t
    }

    pub fn new() -> (r: Self)
        ensures
            r.wf(),
            r.rows@.len() == 0,
            r.next_id == 1,
    {
        TransportModel { rows: Vec::new(), next_id: 1 }
    }

    /// Inserts a fresh row, assigning its id; refused when the user already
    /// has a transport of this type.
    pub fn insert(&mut self, data: &Transport) -> (r: Result<i64, DbError>)
        requires
            old(self).wf(),
            old(self).next_id < i64::MAX,
        ensures
            final(self).wf(),
            r is Ok <==> !old(self).has_user_type(data.user_id, data.transport_type@),
            match r {
                Ok(id) => {
                    &&& id == old(self).next_id
                    &&& final(self).next_id == old(self).next_id + 1
                    &&& final(self).rows@ == old(self).rows@.push(
                        (Transport {
                            id: old(self).next_id,
                            user_id: data.user_id,
                            transport_type: data.transport_type,
                            chat_id: data.chat_id,
                            username: data.username,
                            connected: data.connected,
                            creation_time: data.creation_time,
                        }),
                    )
                },
                Err(e) => e is Conflict && *final(self) == *old(self),
            },
    {
        let n = self.rows.len();
        let mut i: usize = 0;
        while i < n
            invariant
                0 <= i <= n,
                n == self.rows.len(),
                *self == *old(self),
                self.wf(),
                forall|j: int|
                    0 <= j < i ==> !(#[trigger] self.rows[j].user_id == data.user_id
                        && self.rows[j].transport_type@ == data.transport_type@),
            decreases n - i,
        {
            let row = &self.rows[i];
            if row.user_id == data.user_id && str_eq(
                row.transport_type.as_str(),
                data.transport_type.as_str(),
            ) {
                return Err(DbError::Conflict);
            }
            i = i + 1;
        }
        let id = self.next_id;
        let mut row = data.clone();
        row.id = id;
        self.rows.push(row);
        self.next_id = self.next_id + 1;
        Ok(id)
    }

    pub fn find_one_by_id(&self, id: i64) -> (r: Result<Transport, DbError>)
        ensures
            r is Ok <==> self.has_id(id),
            match r {
                Ok(t) => exists|i: int|
                    0 <= i < self.rows.len() && #[trigger] self.rows[i] == t && t.id == id,
                Err(e) => e is NotFound,
            },
    {
        let n = self.rows.len();
        let mut i: usize = 0;
        while i < n
            invariant
                0 <= i <= n,
                n == self.rows.len(),
                forall|j: int| 0 <= j < i ==> #[trigger] self.rows[j].id != id,
            decreases n - i,
        {
            if self.rows[i].id == id {
                return Ok(self.rows[i].clone());
            }
            i = i + 1;
        }
        Err(DbError::NotFound)
    }

    /// All transports of a user, in table order.
    pub fn find_all_by_user_id(&self, user_id: i64) -> (r: Vec<Transport>)
        ensures
            r@ == self.rows@.filter(owned_by(user_id)),
    {
        let n = self.rows.len();
        let mut out: Vec<Transport> = Vec::new();
        let mut i: usize = 0;
        while i < n
            invariant
                0 <= i <= n,
                n == self.rows.len(),
                out@ == self.rows@.take(i as int).filter(owned_by(user_id)),
            decreases n - i,
        {
            proof {
                reveal_with_fuel(Seq::<_>::filter, 2);
                assert(self.rows@.take(i + 1).drop_last() =~= self.rows@.take(i as int));
                assert(self.rows@.take(i + 1).last() == self.rows@[i as int]);
            }
            if self.rows[i].user_id == user_id {
                out.push(self.rows[i].clone());
            }
            i = i + 1;
        }
        proof {
            assert(self.rows@.take(n as int) =~= self.rows@);
        }
        out
    }

    pub fn find_one_by_user_id_type(&self, user_id: i64, transport_type: &str) -> (r: Result<
        Transport,
        DbError,
    >)
        ensures
            r is Ok <==> self.has_user_type(user_id, transport_type@),
            match r {
                Ok(t) => exists|i: int|
                    0 <= i < self.rows.len() && #[trigger] self.rows[i] == t && t.user_id == user_id
                        && t.transport_type@ == transport_type@,
                Err(e) => e is NotFound,
            },
    {
        let n = self.rows.len();
        let mut i: usize = 0;
        while i < n
            invariant
                0 <= i <= n,
                n == self.rows.len(),
                forall|j: int|
                    0 <= j < i ==> !(#[trigger] self.rows[j].user_id == user_id
                        && self.rows[j].transport_type@ == transport_type@),
            decreases n - i,
        {
            let row = &self.rows[i];
            if row.user_id == user_id && str_eq(row.transport_type.as_str(), transport_type) {
                return Ok(self.rows[i].clone());
            }
            i = i + 1;
        }
        Err(DbError::NotFound)
    }

    /// Re-binds the `(user, type)` transport to a chat: sets `chat_id` and
    /// `username` in place; every other row and field is untouched.
    pub fn update_chat_id(
        &mut self,
        user_id: i64,
        username: Option<String>,
        transport_type: &str,
        chat_id: &str,
    )
        requires
            old(self).wf(),
        ensures
            final(self).wf(),
            final(self).rows@.len() == old(self).rows@.len(),
            final(self).next_id == old(self).next_id,
            forall|i: int|
                0 <= i < old(self).rows@.len() ==> if (old(self).rows@[i].user_id == user_id
                    && old(self).rows@[i].transport_type@ == transport_type@) {
                    rebound_to(old(self).rows@[i], #[trigger] final(self).rows@[i], username, chat_id@)
                } else {
                    final(self).rows@[i] == old(self).rows@[i]
                },
    {
        let n = self.rows.len();
        let mut i: usize = 0;
        while i < n
            invariant
                0 <= i <= n,
                n == self.rows.len(),
                self.wf(),
                self.next_id == old(self).next_id,
                forall|j: int| i <= j < n ==> #[trigger] self.rows@[j] == old(self).rows@[j],
                forall|j: int|
                    0 <= j < i ==> if (old(self).rows@[j].user_id == user_id && old(
                        self,
                    ).rows@[j].transport_type@ == transport_type@) {
                        rebound_to(
                            old(self).rows@[j],
                            #[trigger] self.rows@[j],
                            username,
                            chat_id@,
                        )
                    } else {
                        self.rows@[j] == old(self).rows@[j]
                    },
            decreases n - i,
        {
            let matches_here = self.rows[i].user_id == user_id && str_eq(
                self.rows[i].transport_type.as_str(),
                transport_type,
            );
            if matches_here {
                let mut row = self.rows[i].clone();
                row.chat_id = Some(String::from_str(chat_id));
                row.username = match &username {
                    Some(u) => Some(u.clone()),
                    None => None,
                };
                self.rows[i] = row;
                assert(rebound_to(old(self).rows@[i as int], self.rows@[i as int], username, chat_id@));
            }
            i = i + 1;
        }
    }
}

} // verus!
