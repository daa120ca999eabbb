use vstd::prelude::*;
use crate::model::{copy_preview, Link, LinkPreview, SimpleUser};

verus! {

/// A stored link row, without the owner summary.
#[derive(Clone, Debug)]
pub struct LinkRow {
    pub id: u128,
    pub url: String,
    pub title: String,
    pub description: String,
    pub user_id: u128,
    pub click_count: u64,
    pub created_at: i64,
    pub updated_at: i64,
    pub preview: Option<LinkPreview>,
}

/// Where a user's account stands.
#[derive(Clone, Copy, Debug, PartialEq, Eq)]
pub enum UserStatus {
    /// Registered, email not yet confirmed.
    Pending,
    /// Registration completed.
    Active,
}

/// A stored user row.
#[derive(Clone, Debug)]
pub struct UserRow {
    pub id: u128,
    pub email: String,
    pub username: String,
    pub password_hash: String,
    pub is_verified: bool,
    pub status: UserStatus,
    /// When the registration was completed.
    pub verified_at: Option<i64>,
}

/// The link and user tables.
///
/// Link rows are kept newest first (by `created_at`), and each link id
/// occurs once.
pub struct LinkStore {
    pub links: Vec<LinkRow>,
    pub users: Vec<UserRow>,
}

/// The index of the row with id `id` (the last such index), or -1.
pub open spec fn position(rows: Seq<LinkRow>, id: u128) -> int
    decreases rows.len(),
{
    if rows.len() == 0 {
        -1
    } else if rows.last().id == id {
        rows.len() - 1
    } else {
        position(rows.drop_last(), id)
    }
}

/// Each link id occurs at most once.
pub open spec fn ids_unique(rows: Seq<LinkRow>) -> bool {
    forall|i: int, j: int| 0 <= i < j < rows.len() ==> rows[i].id != rows[j].id
}

/// Rows run from the newest `created_at` to the oldest.
pub open spec fn newest_first(rows: Seq<LinkRow>) -> bool {
    forall|i: int, j: int|
        0 <= i < j < rows.len() ==> rows[i].created_at >= rows[j].created_at
}

/// The owner summary of user `uid`: the username of the last user row with
/// that id, if there is one.
pub open spec fn summary_of(users: Seq<UserRow>, uid: u128) -> Option<SimpleUser>
    decreases users.len(),
{
    if users.len() == 0 {
        None
    } else if users.last().id == uid {
        Some(SimpleUser { username: users.last().username })
    } else {
        summary_of(users.drop_last(), uid)
    }
}

/// A row as a reader sees it, with its owner summary joined in.
pub open spec fn joined(row: LinkRow, users: Seq<UserRow>) -> Link {
    Link {
        id: row.id,
        url: row.url,
        title: row.title,
        description: row.description,
        user_id: row.user_id,
        click_count: row.click_count,
        created_at: row.created_at,
        updated_at: row.updated_at,
        preview: row.preview,
        user: summary_of(users, row.user_id),
    }
}

/// The number of leading rows created strictly after `t`: where a row
/// created at `t` goes.
pub open spec fn slot(rows: Seq<LinkRow>, t: i64) -> int
    decreases rows.len(),
{
    if rows.len() == 0 {
        0
    } else if rows[0].created_at > t {
        1 + slot(rows.subrange(1, rows.len() as int), t)
    } else {
        0
    }
}

pub proof fn lemma_position_bounds(rows: Seq<LinkRow>, id: u128)
    ensures
        -1 <= position(rows, id) < rows.len(),
        position(rows, id) >= 0 ==> rows[position(rows, id)].id == id,
        position(rows, id) < 0 ==> forall|i: int| 0 <= i < rows.len() ==> rows[i].id != id,
    decreases rows.len(),
{
    if rows.len() > 0 {
        let pre = rows.drop_last();
        lemma_position_bounds(pre, id);
        assert forall|i: int| 0 <= i < pre.len() implies rows[i] == pre[i] by {}
    }
}

/// With unique ids, the row holding `id` is at `position`.
pub proof fn lemma_position_unique(rows: Seq<LinkRow>, id: u128, i: int)
    requires
        ids_unique(rows),
        0 <= i < rows.len(),
        rows[i].id == id,
    ensures
        position(rows, id) == i,
{
    lemma_position_bounds(rows, id);
}

pub proof fn lemma_slot_bounds(rows: Seq<LinkRow>, t: i64)
    ensures
        0 <= slot(rows, t) <= rows.len(),
        forall|i: int| 0 <= i < slot(rows, t) ==> rows[i].created_at > t,
        slot(rows, t) < rows.len() ==> rows[slot(rows, t)].created_at <= t,
    decreases rows.len(),
{
    if rows.len() > 0 && rows[0].created_at > t {
        let rest = rows.subrange(1, rows.len() as int);
        lemma_slot_bounds(rest, t);
        assert forall|i: int| 0 <= i < slot(rows, t) implies rows[i].created_at > t by {
            if i > 0 {
                assert(rows[i] == rest[i - 1]);
            }
        }
    }
}

impl LinkStore {
    /// The store's invariant.
    pub open spec fn wf(&self) -> bool {
        ids_unique(self.links@) && newest_first(self.links@)
    }

    /// An empty store.
    pub fn new() -> (r: LinkStore)
        ensures
            r.wf(),
            r.links@.len() == 0,
            r.users@.len() == 0,
    {
        LinkStore { links: Vec::new(), users: Vec::new() }
    }

    /// Where the row with id `id` stands, found by a scan from the end.
    pub fn find(&self, id: u128) -> (r: Option<usize>)
        ensures
            r.is_some() <==> position(self.links@, id) >= 0,
            r.is_some() ==> r.unwrap() == position(self.links@, id) && r.unwrap() < self.links@.len()
                && self.links@[r.unwrap() as int].id == id,
    {
        proof { lemma_position_bounds(self.links@, id); }
        let mut i: usize = self.links.len();
        assert(self.links@.subrange(0, i as int) =~= self.links@);
        while i > 0
            invariant
                i <= self.links@.len(),
                position(self.links@, id) == position(self.links@.subrange(0, i as int), id),
            decreases i,
        {
            let ghost pre = self.links@.subrange(0, i as int);
            assert(pre.drop_last() =~= self.links@.subrange(0, i - 1));
            if self.links[i - 1].id == id {
                return Some(i - 1);
            }
            i = i - 1;
        }
        None
    }

    /// The owner summary of user `uid`, found by a scan from the end.
    pub fn owner_summary(&self, uid: u128) -> (r: Option<SimpleUser>)
        ensures
            r == summary_of(self.users@, uid),
    {
        let mut i: usize = self.users.len();
        assert(self.users@.subrange(0, i as int) =~= self.users@);
        while i > 0
            invariant
                i <= self.users@.len(),
                summary_of(self.users@, uid) == summary_of(self.users@.subrange(0, i as int), uid),
            decreases i,
        {
            let ghost pre = self.users@.subrange(0, i as int);
            assert(pre.drop_last() =~= self.users@.subrange(0, i - 1));
            if self.users[i - 1].id == uid {
                return Some(SimpleUser { username: self.users[i - 1].username.clone() });
            }
            i = i - 1;
        }
        None
    }

    /// The row at index `k`, read with its owner summary.
    pub fn read_joined(&self, k: usize) -> (r: Link)
        requires
            k < self.links@.len(),
        ensures
            r == joined(self.links@[k as int], self.users@),
    {
        let row = &self.links[k];
        Link {
            id: row.id,
            url: row.url.clone(),
            title: row.title.clone(),
            description: row.description.clone(),
            user_id: row.user_id,
            click_count: row.click_count,
            created_at: row.created_at,
            updated_at: row.updated_at,
            preview: copy_preview(&row.preview),
            user: self.owner_summary(row.user_id),
        }
    }

    /// Where a row created at `t` goes: after every row created later.
    pub fn slot_for(&self, t: i64) -> (r: usize)
        ensures
            r == slot(self.links@, t),
    {
        let mut i: usize = 0;
        assert(self.links@.subrange(0, self.links@.len() as int) =~= self.links@);
        while i < self.links.len() && self.links[i].created_at > t
            invariant
                i <= self.links@.len(),
                slot(self.links@, t) == i + slot(self.links@.subrange(i as int, self.links@.len() as int), t),
            decreases self.links@.len() - i,
        {
            let ghost rest = self.links@.subrange(i as int, self.links@.len() as int);
            assert(rest.subrange(1, rest.len() as int) =~= self.links@.subrange(i + 1, self.links@.len() as int));
            i = i + 1;
        }
        proof {
            let rest = self.links@.subrange(i as int, self.links@.len() as int);
            if i < self.links@.len() {
                assert(rest[0] == self.links@[i as int]);
            }
        }
        i
    }
}

} // verus!
