//! Issued access tokens, kept for audit. The authentication flow itself only
//! signs and verifies; this table records what was handed out.

use vstd::prelude::*;
use vstd::string::*;

use crate::model::DbError;
use crate::strutil::str_eq;

verus! {

pub struct Token {
    pub id: i64,
    pub user_id: i64,
    pub access_token: String,
    /// Unix seconds.
    pub creation_time: i64,
}

impl Clone for Token {
    fn clone(&self) -> (r: Self)
        ensures
            r == *self,
    {
        Token {
            id: self.id,
            user_id: self.user_id,
            access_token: self.access_token.clone(),
            creation_time: self.creation_time,
        }
    }
}

impl Token {
    /// A fresh row, before insertion (`id` is assigned by the store).
    pub fn new(user_id: i64, access_token: &str) -> (r: Token)
        ensures
            r.id == 0,
            r.user_id == user_id,
            r.access_token@ == access_token@,
    {
        Token {
            id: 0,
            user_id,
            access_token: String::from_str(access_token),
            creation_time: crate::clock::now_ts(),
        }
    }
}

pub struct TokenModel {
    pub rows: Vec<Token>,
    pub next_id: i64,
}

impl TokenModel {
    /// Well-formed table: ids positive, strictly increasing in table order
    /// (hence unique), below the allocator.
    pub open spec fn wf(self) -> bool {
        &&& 1 <= self.next_id
        &&& forall|i: int|
            0 <= i < self.rows.len() ==> 1 <= #[trigger] self.rows[i].id < self.next_id
        &&& forall|i: int, j: int|
            0 <= i < j < self.rows.len() ==> #[trigger] self.rows[i].id
                < #[trigger] self.rows[j].id
    }

    pub open spec fn has_user(self, user_id: i64) -> bool {
        exists|i: int| 0 <= i < self.rows.len() && #[trigger] self.rows[i].user_id == user_id
    }

    pub open spec fn has_access_token(self, t: Seq<char>) -> bool {
        exists|i: int| 0 <= i < self.rows.len() && #[trigger] self.rows[i].access_token@ == t
    }

    pub fn new() -> (r: Self)
        ensures
            r.wf(),
            r.rows@.len() == 0,
            r.next_id == 1,
    {
        TokenModel { rows: Vec::new(), next_id: 1 }
    }

    /// Inserts a fresh row, assigning its id.
    pub fn insert(&mut self, data: &Token) -> (id: i64)
        requires
            old(self).wf(),
            old(self).next_id < i64::MAX,
        ensures
            final(self).wf(),
            id == old(self).next_id,
            final(self).next_id == old(self).next_id + 1,
            final(self).rows@ == old(self).rows@.push(
                (Token {
                    id: old(self).next_id,
                    user_id: data.user_id,
                    access_token: data.access_token,
                    creation_time: data.creation_time,
                }),
            ),
    {
        let id = self.next_id;
        let mut row = data.clone();
        row.id = id;
        self.rows.push(row);
        self.next_id = self.next_id + 1;
        id
    }

    pub fn find_one_by_user_id(&self, user_id: i64) -> (r: Result<Token, DbError>)
        ensures
            r is Ok <==> self.has_user(user_id),
            match r {
                Ok(t) => exists|i: int|
                    0 <= i < self.rows.len() && #[trigger] self.rows[i] == t && t.user_id
                        == user_id,
                Err(e) => e is NotFound,
            },
    {
        let n = self.rows.len();
        let mut i: usize = 0;
        while i < n
            invariant
                0 <= i <= n,
                n == self.rows.len(),
                forall|j: int| 0 <= j < i ==> #[trigger] self.rows[j].user_id != user_id,
            decreases n - i,
        {
            if self.rows[i].user_id == user_id {
                return Ok(self.rows[i].clone());
            }
            i = i + 1;
        }
        Err(DbError::NotFound)
    }

    pub fn find_one_by_access_token(&self, access_token: &str) -> (r: Result<Token, DbError>)
        ensures
            r is Ok <==> self.has_access_token(access_token@),
            match r {
                Ok(t) => exists|i: int|
                    0 <= i < self.rows.len() && #[trigger] self.rows[i] == t && t.access_token@
                        == access_token@,
                Err(e) => e is NotFound,
            },
    {
        let n = self.rows.len();
        let mut i: usize = 0;
        while i < n
            invariant
                0 <= i <= n,
                n == self.rows.len(),
                forall|j: int| 0 <= j < i ==> #[trigger] self.rows[j].access_token@ != access_token@,
            decreases n - i,
        {
            if str_eq(self.rows[i].access_token.as_str(), access_token) {
                return Ok(self.rows[i].clone());
            }
            i = i + 1;
        }
        Err(DbError::NotFound)
    }
}

} // verus!
