use vstd::prelude::*;
use crate::model::{copy_preview, Link, LinkPreview};
use crate::store::{
    UserStatus,
    lemma_position_unique,
    UserRow,
    joined, lemma_position_bounds, lemma_slot_bounds, position, slot, ids_unique, newest_first, LinkRow,
    LinkStore,
};

verus! {

/// Why the store refused a write.
#[derive(Clone, Copy, Debug, PartialEq, Eq)]
pub enum StoreError {
    /// A row with the new row's id is already stored.
    DuplicateId,
    /// No row met the statement's condition.
    RowNotFound,
}

/// The row that `create_link` stores.
pub open spec fn fresh_row(
    id: u128,
    url: String,
    title: String,
    description: String,
    user_id: u128,
    preview: Option<LinkPreview>,
    now: i64,
) -> LinkRow {
    LinkRow {
        id,
        url,
        title,
        description,
        user_id,
        click_count: 0,
        created_at: now,
        updated_at: now,
        preview,
    }
}

/// A row after a user edit: new text fields and `updated_at`, nothing else.
pub open spec fn edited(row: LinkRow, url: String, title: String, description: String, now: i64) -> LinkRow {
    LinkRow { url, title, description, updated_at: now, ..row }
}

/// A click count after one more click (it stays at the largest `u64`).
pub open spec fn bumped(count: u64) -> u64 {
    if count < u64::MAX {
        (count + 1) as u64
    } else {
        count
    }
}

/// A row after one tracked click.
pub open spec fn clicked(row: LinkRow) -> LinkRow {
    LinkRow { click_count: bumped(row.click_count), ..row }
}

/// A row with a preview attached; nothing else changes.
pub open spec fn previewed(row: LinkRow, preview: LinkPreview) -> LinkRow {
    LinkRow { preview: Some(preview), ..row }
}

/// The link with id `id` as a reader sees it, or `None`.
pub open spec fn lookup(rows: Seq<LinkRow>, users: Seq<UserRow>, id: u128) -> Option<Link> {
    if position(rows, id) >= 0 {
        Some(joined(rows[position(rows, id)], users))
    } else {
        None
    }
}

/// The table after `create_link`: unchanged where the id is taken.
pub open spec fn after_create(
    rows: Seq<LinkRow>,
    id: u128,
    url: String,
    title: String,
    description: String,
    user_id: u128,
    preview: Option<LinkPreview>,
    now: i64,
) -> Seq<LinkRow> {
    if position(rows, id) >= 0 {
        rows
    } else {
        rows.insert(slot(rows, now), fresh_row(id, url, title, description, user_id, preview, now))
    }
}

/// The table after `update_link`: unchanged where no row has the id.
pub open spec fn after_edit(
    rows: Seq<LinkRow>,
    id: u128,
    url: String,
    title: String,
    description: String,
    now: i64,
) -> Seq<LinkRow> {
    if position(rows, id) >= 0 {
        rows.update(position(rows, id), edited(rows[position(rows, id)], url, title, description, now))
    } else {
        rows
    }
}

/// The table after `increment_click_count`: unchanged where no row has the id.
pub open spec fn after_click(rows: Seq<LinkRow>, id: u128) -> Seq<LinkRow> {
    if position(rows, id) >= 0 {
        rows.update(position(rows, id), clicked(rows[position(rows, id)]))
    } else {
        rows
    }
}

/// The table after `attach_preview`: unchanged where no row has the id.
pub open spec fn after_preview(rows: Seq<LinkRow>, id: u128, preview: LinkPreview) -> Seq<LinkRow> {
    if position(rows, id) >= 0 {
        rows.update(position(rows, id), previewed(rows[position(rows, id)], preview))
    } else {
        rows
    }
}

/// The table after `delete_link`: unchanged where no row has the id.
pub open spec fn after_delete(rows: Seq<LinkRow>, id: u128) -> Seq<LinkRow> {
    if position(rows, id) >= 0 {
        rows.remove(position(rows, id))
    } else {
        rows
    }
}

impl LinkStore {
    /// Puts `row` in place of the row at `k`.
    fn replace_row(&mut self, k: usize, row: LinkRow)
        requires
            k < old(self).links@.len(),
        ensures
            final(self).links@ == old(self).links@.update(k as int, row),
            final(self).users@ == old(self).users@,
    {
        let ghost before = self.links@;
        self.links.remove(k);
        self.links.insert(k, row);
        assert(self.links@ =~= before.update(k as int, row));
    }
}

/// A row keeps its id and creation time under an in-place change, so the
/// store's invariant holds after it.
proof fn lemma_update_keeps_wf(rows: Seq<LinkRow>, k: int, row: LinkRow)
    requires
        ids_unique(rows),
        newest_first(rows),
        0 <= k < rows.len(),
        row.id == rows[k].id,
        row.created_at == rows[k].created_at,
    ensures
        ids_unique(rows.update(k, row)),
        newest_first(rows.update(k, row)),
{
}

/// A new row with a fresh id, put in its slot, keeps the store's invariant.
pub proof fn lemma_create_keeps_wf(
    rows: Seq<LinkRow>,
    id: u128,
    url: String,
    title: String,
    description: String,
    user_id: u128,
    preview: Option<LinkPreview>,
    now: i64,
)
    requires
        ids_unique(rows),
        newest_first(rows),
    ensures
        ids_unique(after_create(rows, id, url, title, description, user_id, preview, now)),
        newest_first(after_create(rows, id, url, title, description, user_id, preview, now)),
        position(rows, id) < 0 ==> position(
            after_create(rows, id, url, title, description, user_id, preview, now),
            id,
        ) == slot(rows, now),
{
    lemma_position_bounds(rows, id);
    lemma_slot_bounds(rows, now);
    if position(rows, id) < 0 {
        let k = slot(rows, now);
        let row = fresh_row(id, url, title, description, user_id, preview, now);
        let after = rows.insert(k, row);
        assert forall|i: int, j: int| 0 <= i < j < after.len() implies after[i].id != after[j].id by {
            if i < k && j > k {
                assert(after[j] == rows[j - 1]);
            } else if i == k {
                assert(after[j] == rows[j - 1]);
            } else if j == k {
                assert(after[i] == rows[i]);
            } else if j < k {
                assert(after[i] == rows[i]);
                assert(after[j] == rows[j]);
            } else {
                assert(after[i] == rows[i - 1]);
                assert(after[j] == rows[j - 1]);
            }
        }
        assert forall|i: int, j: int| 0 <= i < j < after.len() implies after[i].created_at
            >= after[j].created_at by {
            if j == k {
                assert(after[i] == rows[i]);
            } else if i == k {
                assert(after[j] == rows[j - 1]);
                assert(rows[k].created_at <= now);
            } else if i < k && j > k {
                assert(after[j] == rows[j - 1]);
            } else if j < k {
                assert(after[i] == rows[i]);
                assert(after[j] == rows[j]);
            } else {
                assert(after[i] == rows[i - 1]);
                assert(after[j] == rows[j - 1]);
            }
        }
        assert(after[k].id == id);
        lemma_position_unique(after, id, k);
    }
}

/// Lists every link, newest first, each with its owner summary.
pub fn get_all_links(store: &LinkStore) -> (r: Vec<Link>)
    requires
        store.wf(),
    ensures
        r@.len() == store.links@.len(),
        forall|i: int| 0 <= i < r@.len() ==> r@[i] == joined(store.links@[i], store.users@),
        forall|i: int, j: int| 0 <= i < j < r@.len() ==> r@[i].created_at >= r@[j].created_at,
{
    let mut out: Vec<Link> = Vec::new();
    let mut k: usize = 0;
    while k < store.links.len()
        invariant
            k <= store.links@.len(),
            out@.len() == k,
            forall|i: int| 0 <= i < k ==> out@[i] == joined(store.links@[i], store.users@),
        decreases store.links@.len() - k,
    {
        out.push(store.read_joined(k));
        k = k + 1;
    }
    out
}

/// Stores a new link, created and updated at `now`, with no clicks yet.
///
/// The new row goes after every row created later than `now` and before the
/// others, so the table stays newest first. A taken id is refused.
pub fn create_link(
    store: &mut LinkStore,
    id: u128,
    url: String,
    title: String,
    description: String,
    user_id: u128,
    preview: Option<LinkPreview>,
    now: i64,
) -> (r: Result<Link, StoreError>)
    requires
        old(store).wf(),
    ensures
        final(store).wf(),
        final(store).users@ == old(store).users@,
        final(store).links@ == after_create(old(store).links@, id, url, title, description, user_id, preview, now),
        position(old(store).links@, id) >= 0 ==> r == Err::<Link, StoreError>(StoreError::DuplicateId),
        position(old(store).links@, id) < 0 ==> r == Ok::<Link, StoreError>(
            joined(fresh_row(id, url, title, description, user_id, preview, now), old(store).users@),
        ),
{
    if store.find(id).is_some() {
        return Err(StoreError::DuplicateId);
    }
    let k = store.slot_for(now);
    let ghost before = store.links@;
    let row = LinkRow {
        id,
        url,
        title,
        description,
        user_id,
        click_count: 0,
        created_at: now,
        updated_at: now,
        preview,
    };
    proof {
        lemma_slot_bounds(before, now);
        lemma_create_keeps_wf(before, id, url, title, description, user_id, preview, now);
    }
    store.links.insert(k, row);
    proof {
        assert(store.links@ =~= after_create(before, id, url, title, description, user_id, preview, now));
    }
    Ok(store.read_joined(k))
}

/// Looks a link up by id; `None` where no row has that id.
pub fn get_link_by_id(store: &LinkStore, link_id: u128) -> (r: Option<Link>)
    ensures
        r == lookup(store.links@, store.users@, link_id),
{
    match store.find(link_id) {
        Some(k) => Some(store.read_joined(k)),
        None => None,
    }
}

/// Sets a link's url, title and description and refreshes `updated_at` to
/// `now`; clicks and preview stay. `None` where no row has that id.
pub fn update_link(
    store: &mut LinkStore,
    link_id: u128,
    url: String,
    title: String,
    description: String,
    now: i64,
) -> (r: Option<Link>)
    requires
        old(store).wf(),
    ensures
        final(store).wf(),
        final(store).users@ == old(store).users@,
        final(store).links@ == after_edit(old(store).links@, link_id, url, title, description, now),
        r == lookup(final(store).links@, final(store).users@, link_id),
        r is Some <==> position(old(store).links@, link_id) >= 0,
        r is Some ==> r->Some_0 == joined(
            edited(old(store).links@[position(old(store).links@, link_id)], url, title, description, now),
            old(store).users@,
        ),
{
    match store.find(link_id) {
        Some(k) => {
            proof { lemma_position_bounds(store.links@, link_id); }
            let old_row = &store.links[k];
            let row = LinkRow {
                id: old_row.id,
                url,
                title,
                description,
                user_id: old_row.user_id,
                click_count: old_row.click_count,
                created_at: old_row.created_at,
                updated_at: now,
                preview: copy_preview(&old_row.preview),
            };
            proof { lemma_update_keeps_wf(store.links@, k as int, row); }
            store.replace_row(k, row);
            proof { lemma_position_unique(store.links@, link_id, k as int); }
            Some(store.read_joined(k))
        },
        None => None,
    }
}

/// Counts one click on a link. Where no row has that id nothing happens.
pub fn increment_click_count(store: &mut LinkStore, link_id: u128)
    requires
        old(store).wf(),
    ensures
        final(store).wf(),
        final(store).users@ == old(store).users@,
        final(store).links@ == after_click(old(store).links@, link_id),
{
    if let Some(k) = store.find(link_id) {
        proof { lemma_position_bounds(store.links@, link_id); }
        let old_row = &store.links[k];
        let count = if old_row.click_count < u64::MAX {
            old_row.click_count + 1
        } else {
            old_row.click_count
        };
        let row = LinkRow {
            id: old_row.id,
            url: old_row.url.clone(),
            title: old_row.title.clone(),
            description: old_row.description.clone(),
            user_id: old_row.user_id,
            click_count: count,
            created_at: old_row.created_at,
            updated_at: old_row.updated_at,
            preview: copy_preview(&old_row.preview),
        };
        proof { lemma_update_keeps_wf(store.links@, k as int, row); }
        store.replace_row(k, row);
    }
}

/// Removes a link. Where no row has that id nothing happens.
pub fn delete_link(store: &mut LinkStore, link_id: u128)
    requires
        old(store).wf(),
    ensures
        final(store).wf(),
        final(store).users@ == old(store).users@,
        final(store).links@ == after_delete(old(store).links@, link_id),
{
    if let Some(k) = store.find(link_id) {
        let ghost before = store.links@;
        store.links.remove(k);
        proof {
            let after = store.links@;
            assert forall|i: int, j: int| 0 <= i < j < after.len() implies after[i].id != after[j].id
                && after[i].created_at >= after[j].created_at by {
                let bi = if i < k { i } else { i + 1 };
                let bj = if j < k { j } else { j + 1 };
                assert(after[i] == before[bi]);
                assert(after[j] == before[bj]);
            }
        }
    }
}

/// Attaches a preview to a link, leaving `updated_at` and every other field
/// as it was. Where no row has that id (the link was deleted meanwhile)
/// nothing happens.
pub fn attach_preview(store: &mut LinkStore, link_id: u128, preview: LinkPreview)
    requires
        old(store).wf(),
    ensures
        final(store).wf(),
        final(store).users@ == old(store).users@,
        final(store).links@ == after_preview(old(store).links@, link_id, preview),
{
    if let Some(k) = store.find(link_id) {
        proof { lemma_position_bounds(store.links@, link_id); }
        let old_row = &store.links[k];
        let row = LinkRow {
            id: old_row.id,
            url: old_row.url.clone(),
            title: old_row.title.clone(),
            description: old_row.description.clone(),
            user_id: old_row.user_id,
            click_count: old_row.click_count,
            created_at: old_row.created_at,
            updated_at: old_row.updated_at,
            preview: Some(preview),
        };
        proof { lemma_update_keeps_wf(store.links@, k as int, row); }
        store.replace_row(k, row);
    }
}

/// A user row that clashes with a registration by `email` or, where it is
/// not empty, by `username`.
pub open spec fn clashes(row: UserRow, email: Seq<char>, username: Seq<char>) -> bool {
    row.email@ == email || (username.len() > 0 && row.username@ == username)
}

/// Whether some user already has the email, or the username where one is
/// given (an empty username is not looked for).
pub fn check_user_exists(store: &LinkStore, email: &String, username: &String) -> (r: bool)
    ensures
        r == exists|i: int| 0 <= i < store.users@.len() && clashes(store.users@[i], email@, username@),
{
    let name_given = !username.as_str().is_empty();
    let mut i: usize = 0;
    while i < store.users.len()
        invariant
            i <= store.users@.len(),
            name_given == (username@.len() > 0),
            forall|j: int| 0 <= j < i ==> !clashes(store.users@[j], email@, username@),
        decreases store.users@.len() - i,
    {
        let row = &store.users[i];
        if row.email == *email || (name_given && row.username == *username) {
            return true;
        }
        i = i + 1;
    }
    false
}

/// Adds a user who has not verified their email yet. A taken id is refused.
pub fn create_unverified_user(
    store: &mut LinkStore,
    id: u128,
    email: String,
    username: String,
    password_hash: String,
) -> (r: Result<(), StoreError>)
    requires
        old(store).wf(),
    ensures
        final(store).wf(),
        final(store).links@ == old(store).links@,
        (exists|i: int| 0 <= i < old(store).users@.len() && old(store).users@[i].id == id) ==> r
            == Err::<(), StoreError>(StoreError::DuplicateId) && final(store).users@ == old(store).users@,
        !(exists|i: int| 0 <= i < old(store).users@.len() && old(store).users@[i].id == id) ==> r
            == Ok::<(), StoreError>(()) && final(store).users@ == old(store).users@.push(
            UserRow {
                id,
                email,
                username,
                password_hash,
                is_verified: false,
                status: UserStatus::Pending,
                verified_at: None,
            },
        ),
{
    let mut i: usize = 0;
    while i < store.users.len()
        invariant
            store.wf(),
            store.links@ == old(store).links@,
            store.users@ == old(store).users@,
            i <= store.users@.len(),
            forall|j: int| 0 <= j < i ==> store.users@[j].id != id,
        decreases store.users@.len() - i,
    {
        if store.users[i].id == id {
            return Err(StoreError::DuplicateId);
        }
        i = i + 1;
    }
    store.users.push(
        UserRow {
            id,
            email,
            username,
            password_hash,
            is_verified: false,
            status: UserStatus::Pending,
            verified_at: None,
        },
    );
    Ok(())
}

/// A user row after `complete_registration` for `email` at time `now`.
pub open spec fn registered(row: UserRow, email: Seq<char>, now: i64) -> UserRow {
    if row.email@ == email && !row.is_verified {
        UserRow { is_verified: true, status: UserStatus::Active, verified_at: Some(now), ..row }
    } else {
        row
    }
}

/// Marks every unverified user with the email as verified and active, verified
/// at `now`; `RowNotFound` where there was none.
pub fn complete_registration(store: &mut LinkStore, email: &String, now: i64) -> (r: Result<(), StoreError>)
    requires
        old(store).wf(),
    ensures
        final(store).wf(),
        final(store).links@ == old(store).links@,
        final(store).users@.len() == old(store).users@.len(),
        forall|i: int| 0 <= i < old(store).users@.len() ==> final(store).users@[i] == registered(
            old(store).users@[i],
            email@,
            now,
        ),
        r is Ok <==> exists|i: int| 0 <= i < old(store).users@.len() && old(store).users@[i].email@ == email@
            && !old(store).users@[i].is_verified,
        r is Err ==> r == Err::<(), StoreError>(StoreError::RowNotFound),
{
    let ghost before = store.users@;
    let mut changed: bool = false;
    let mut i: usize = 0;
    while i < store.users.len()
        invariant
            store.links@ == old(store).links@,
            before == old(store).users@,
            i <= store.users@.len(),
            store.users@.len() == before.len(),
            forall|j: int| 0 <= j < i ==> store.users@[j] == registered(before[j], email@, now),
            forall|j: int| i <= j < before.len() ==> store.users@[j] == before[j],
            changed == exists|j: int| 0 <= j < i && before[j].email@ == email@ && !before[j].is_verified,
        decreases store.users@.len() - i,
    {
        let hit = store.users[i].email == *email && !store.users[i].is_verified;
        if hit {
            let ghost mid = store.users@;
            let mut row = store.users.remove(i);
            row.is_verified = true;
            row.status = UserStatus::Active;
            row.verified_at = Some(now);
            store.users.insert(i, row);
            assert(store.users@ =~= mid.update(i as int, row));
            changed = true;
        }
        proof {
            if hit {
                assert(before[i as int].email@ == email@ && !before[i as int].is_verified);
            }
        }
        i = i + 1;
    }
    if !changed {
        return Err(StoreError::RowNotFound);
    }
    Ok(())
}

/// Whether the first user with the email has verified it; false where no
/// user has it.
pub fn is_user_verified(store: &LinkStore, email: &String) -> (r: bool)
    ensures
        r == exists|i: int|
            0 <= i < store.users@.len() && store.users@[i].email@ == email@ && store.users@[i].is_verified
                && forall|j: int| 0 <= j < i ==> store.users@[j].email@ != email@,
{
    let mut i: usize = 0;
    while i < store.users.len()
        invariant
            i <= store.users@.len(),
            forall|j: int| 0 <= j < i ==> store.users@[j].email@ != email@,
        decreases store.users@.len() - i,
    {
        if store.users[i].email == *email {
            return store.users[i].is_verified;
        }
        i = i + 1;
    }
    false
}

} // verus!
