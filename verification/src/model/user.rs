//! Users and the user table. A user is created on first successful wallet
//! authentication; `open_id` and `project_id` are generated once and are
//! unique and immutable afterwards.

use vstd::prelude::*;
use vstd::string::*;

use crate::model::DbError;
use crate::strutil::is_alphanumeric_char;
use crate::strutil::is_lower_hex_char;
use crate::strutil::str_eq;

verus! {

pub struct User {
    pub id: i64,
    /// Public UUID in its 36-character hyphenated form; the `/start` payload.
    pub open_id: String,
    /// Opaque 45-character alphanumeric credential for push ingestion.
    pub project_id: String,
    pub wallet_address: String,
    /// Unix seconds.
    pub creation_time: i64,
}

impl Clone for User {
    fn clone(&self) -> (r: Self)
        ensures
            r == *self,
    {
        User {
            id: self.id,
            open_id: self.open_id.clone(),
            project_id: self.project_id.clone(),
            wallet_address: self.wallet_address.clone(),
            creation_time: self.creation_time,
        }
    }
}

/// Relies on rand's `Alphanumeric` distribution: each sampled character is one
/// of `0-9`, `A-Z`, `a-z`; 45 of them form the credential. Nothing more is
/// assumed of the value.
#[verifier::external_body]
pub fn gen_project_id() -> (r: String)
    ensures
        r@.len() == 45,
        forall|i: int| 0 <= i < r@.len() ==> is_alphanumeric_char(#[trigger] r@[i]),
{
    rand::Rng::sample_iter(rand::thread_rng(), &rand::distributions::Alphanumeric)
        .take(45)
        .map(char::from)
        .collect()
}

/// Relies on uuid's `Uuid::new_v4` and its rendering: a fresh random UUID in
/// the 36-character hyphenated form — lowercase hex digits with hyphens after
/// the 8th, 13th, 18th and 23rd positions. Nothing more is assumed.
#[verifier::external_body]
fn gen_open_id() -> (r: String)
    ensures
        r@.len() == 36,
        r@[8] == '-' && r@[13] == '-' && r@[18] == '-' && r@[23] == '-',
        forall|i: int|
            0 <= i < 36 && i != 8 && i != 13 && i != 18 && i != 23 ==> is_lower_hex_char(
                #[trigger] r@[i],
            ),
{
    uuid::Uuid::new_v4().to_string()
}

impl User {
    /// A fresh user row, before insertion (`id` is assigned by the store).
    pub fn new(wallet_address: &str) -> (r: User)
        ensures
            r.id == 0,
            r.wallet_address@ == wallet_address@,
            r.open_id@.len() == 36,
            r.project_id@.len() == 45,
            forall|i: int| 0 <= i < r.project_id@.len() ==> is_alphanumeric_char(
                #[trigger] r.project_id@[i],
            ),
    {
        User {
            id: 0,
            open_id: gen_open_id(),
            project_id: gen_project_id(),
            wallet_address: String::from_str(wallet_address),
            creation_time: crate::clock::now_ts(),
        }
    }
}

pub struct UserModel {
    pub rows: Vec<User>,
    pub next_id: i64,
}

impl UserModel {
    /// Well-formed table: ids positive, unique and below the allocator, and
    /// the three unique columns pairwise distinct.
    pub open spec fn wf(self) -> bool {
        &&& 1 <= self.next_id
        &&& forall|i: int|
            0 <= i < self.rows.len() ==> 1 <= #[trigger] self.rows[i].id < self.next_id
        &&& forall|i: int, j: int|
            0 <= i < j < self.rows.len() ==> #[trigger] self.rows[i].id != #[trigger] self.rows[j].id
        &&& forall|i: int, j: int|
            0 <= i < j < self.rows.len() ==> self.rows[i].wallet_address@
                != self.rows[j].wallet_address@
        &&& forall|i: int, j: int|
            0 <= i < j < self.rows.len() ==> self.rows[i].open_id@ != self.rows[j].open_id@
        &&& forall|i: int, j: int|
            0 <= i < j < self.rows.len() ==> self.rows[i].project_id@ != self.rows[j].project_id@
    }

    pub open spec fn has_wallet(self, w: Seq<char>) -> bool {
        exists|i: int| 0 <= i < self.rows.len() && #[trigger] self.rows[i].wallet_address@ == w
    }

    pub open spec fn has_open_id(self, o: Seq<char>) -> bool {
        exists|i: int| 0 <= i < self.rows.len() && #[trigger] self.rows[i].open_id@ == o
    }

    pub open spec fn has_project_id(self, p: Seq<char>) -> bool {
        exists|i: int| 0 <= i < self.rows.len() && #[trigger] self.rows[i].project_id@ == p
    }

    pub open spec fn has_id(self, id: i64) -> bool {
        exists|i: int| 0 <= i < self.rows.len() && #[trigger] self.rows[i].id == id
    }

    /// The row with this wallet (meaningful under `has_wallet`; unique under
    /// well-formedness).
    pub open spec fn user_by_wallet(self, w: Seq<char>) -> User {
        self.rows[choose|i: int|
            0 <= i < self.rows.len() && #[trigger] self.rows[i].wallet_address@ == w]
    }

    /// The row with this open id (meaningful under `has_open_id`).
    pub open spec fn user_by_open_id(self, o: Seq<char>) -> User {
        self.rows[choose|i: int| 0 <= i < self.rows.len() && #[trigger] self.rows[i].open_id@ == o]
    }

    /// The row with this project id (meaningful under `has_project_id`).
    pub open spec fn user_by_project(self, p: Seq<char>) -> User {
        self.rows[choose|i: int|
            0 <= i < self.rows.len() && #[trigger] self.rows[i].project_id@ == p]
    }

    pub fn new() -> (r: Self)
        ensures
            r.wf(),
            r.rows@.len() == 0,
            r.next_id == 1,
    {
        UserModel { rows: Vec::new(), next_id: 1 }
    }

    /// Inserts a fresh row, assigning its id; refused when one of the unique
    /// columns is already taken.
    pub fn insert(&mut self, data: &User) -> (r: Result<i64, DbError>)
        requires
            old(self).wf(),
            old(self).next_id < i64::MAX,
        ensures
            final(self).wf(),
            r is Ok <==> !(old(self).has_wallet(data.wallet_address@) || old(self).has_open_id(
                data.open_id@,
            ) || old(self).has_project_id(data.project_id@)),
            match r {
                Ok(id) => {
                    &&& id == old(self).next_id
                    &&& final(self).next_id == old(self).next_id + 1
                    &&& final(self).rows@ == old(self).rows@.push(
                        (User {
                            id: old(self).next_id,
                            open_id: data.open_id,
                            project_id: data.project_id,
                            wallet_address: data.wallet_address,
                            creation_time: data.creation_time,
                        }),
                    )
                },
                Err(e) => e is Conflict && *final(self) == *old(self),
            },
    {
        let n = self.rows.len();
        let mut i: usize = 0;
        while i < n
            invariant
                0 <= i <= n,
                n == self.rows.len(),
                *self == *old(self),
                self.wf(),
                forall|j: int|
                    0 <= j < i ==> #[trigger] self.rows[j].wallet_address@
                        != data.wallet_address@,
                forall|j: int| 0 <= j < i ==> #[trigger] self.rows[j].open_id@ != data.open_id@,
                forall|j: int|
                    0 <= j < i ==> #[trigger] self.rows[j].project_id@ != data.project_id@,
            decreases n - i,
        {
            let row = &self.rows[i];
            if str_eq(row.wallet_address.as_str(), data.wallet_address.as_str()) || str_eq(
                row.open_id.as_str(),
                data.open_id.as_str(),
            ) || str_eq(row.project_id.as_str(), data.project_id.as_str()) {
                return Err(DbError::Conflict);
            }
            i = i + 1;
        }
        let id = self.next_id;
        let row = User {
            id,
            open_id: data.open_id.clone(),
            project_id: data.project_id.clone(),
            wallet_address: data.wallet_address.clone(),
            creation_time: data.creation_time,
        };
        self.rows.push(row);
        self.next_id = self.next_id + 1;
        Ok(id)
    }

    pub fn find_one_by_wallet_address(&self, wallet_address: &str) -> (r: Result<User, DbError>)
        requires
            self.wf(),
        ensures
            r is Ok <==> self.has_wallet(wallet_address@),
            match r {
                Ok(u) => self.has_wallet(wallet_address@) && u == self.user_by_wallet(
                    wallet_address@,
                ) && u.wallet_address@ == wallet_address@,
                Err(e) => e is NotFound,
            },
    {
        let n = self.rows.len();
        let mut i: usize = 0;
        while i < n
            invariant
                0 <= i <= n,
                n == self.rows.len(),
                self.wf(),
                forall|j: int|
                    0 <= j < i ==> #[trigger] self.rows[j].wallet_address@ != wallet_address@,
            decreases n - i,
        {
            if str_eq(self.rows[i].wallet_address.as_str(), wallet_address) {
                proof {
                    assert(self.has_wallet(wallet_address@));
                    let j = choose|j: int|
                        0 <= j < self.rows.len() && #[trigger] self.rows[j].wallet_address@
                            == wallet_address@;
                    if j < i as int {
                        assert(self.rows[j].wallet_address@ != self.rows[i as int].wallet_address@);
                    } else if j > i as int {
                        assert(self.rows[i as int].wallet_address@ != self.rows[j].wallet_address@);
                    }
                }
                return Ok(self.rows[i].clone());
            }
            i = i + 1;
        }
        Err(DbError::NotFound)
    }

    pub fn find_one_by_open_id(&self, open_id: &str) -> (r: Result<User, DbError>)
        requires
            self.wf(),
        ensures
            r is Ok <==> self.has_open_id(open_id@),
            match r {
                Ok(u) => self.has_open_id(open_id@) && u == self.user_by_open_id(open_id@)
                    && u.open_id@ == open_id@,
                Err(e) => e is NotFound,
            },
    {
        let n = self.rows.len();
        let mut i: usize = 0;
        while i < n
            invariant
                0 <= i <= n,
                n == self.rows.len(),
                self.wf(),
                forall|j: int| 0 <= j < i ==> #[trigger] self.rows[j].open_id@ != open_id@,
            decreases n - i,
        {
            if str_eq(self.rows[i].open_id.as_str(), open_id) {
                proof {
                    assert(self.has_open_id(open_id@));
                    let j = choose|j: int|
                        0 <= j < self.rows.len() && #[trigger] self.rows[j].open_id@ == open_id@;
                    if j < i as int {
                        assert(self.rows[j].open_id@ != self.rows[i as int].open_id@);
                    } else if j > i as int {
                        assert(self.rows[i as int].open_id@ != self.rows[j].open_id@);
                    }
                }
                return Ok(self.rows[i].clone());
            }
            i = i + 1;
        }
        Err(DbError::NotFound)
    }

    pub fn find_one_by_project_id(&self, project_id: &str) -> (r: Result<User, DbError>)
        requires
            self.wf(),
        ensures
            r is Ok <==> self.has_project_id(project_id@),
            match r {
                Ok(u) => self.has_project_id(project_id@) && u == self.user_by_project(project_id@)
                    && u.project_id@ == project_id@,
                Err(e) => e is NotFound,
            },
    {
        let n = self.rows.len();
        let mut i: usize = 0;
        while i < n
            invariant
                0 <= i <= n,
                n == self.rows.len(),
                self.wf(),
                forall|j: int| 0 <= j < i ==> #[trigger] self.rows[j].project_id@ != project_id@,
            decreases n - i,
        {
            if str_eq(self.rows[i].project_id.as_str(), project_id) {
                proof {
                    assert(self.has_project_id(project_id@));
                    let j = choose|j: int|
                        0 <= j < self.rows.len() && #[trigger] self.rows[j].project_id@
                            == project_id@;
                    if j < i as int {
                        assert(self.rows[j].project_id@ != self.rows[i as int].project_id@);
                    } else if j > i as int {
                        assert(self.rows[i as int].project_id@ != self.rows[j].project_id@);
                    }
                }
                return Ok(self.rows[i].clone());
            }
            i = i + 1;
        }
        Err(DbError::NotFound)
    }
}

} // verus!
