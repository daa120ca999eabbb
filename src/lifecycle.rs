use vstd::prelude::*;
use crate::model::{Link, LinkPreview};
use crate::queries::{
    after_click, after_create, after_delete, after_edit, after_preview, clicked, edited,
    fresh_row, lemma_create_keeps_wf, lookup, previewed,
};
use crate::store::{
    ids_unique, joined, lemma_position_bounds, lemma_position_unique, lemma_slot_bounds,
    newest_first, position, slot, LinkRow, UserRow,
};

verus! {

/// The preview that the link with id `id` carries, if the link is there.
pub open spec fn preview_of(rows: Seq<LinkRow>, id: u128) -> Option<LinkPreview> {
    if position(rows, id) >= 0 {
        rows[position(rows, id)].preview
    } else {
        None
    }
}

/// The table after `n` clicks on link `id`.
pub open spec fn after_clicks(rows: Seq<LinkRow>, id: u128, n: nat) -> Seq<LinkRow>
    decreases n,
{
    if n == 0 {
        rows
    } else {
        after_click(after_clicks(rows, id, (n - 1) as nat), id)
    }
}

/// Where two tables hold the same ids in the same order, a link stands at the
/// same place in both.
pub proof fn lemma_position_same_ids(a: Seq<LinkRow>, b: Seq<LinkRow>, id: u128)
    requires
        a.len() == b.len(),
        forall|i: int| 0 <= i < a.len() ==> #[trigger] a[i].id == b[i].id,
    ensures
        position(a, id) == position(b, id),
    decreases a.len(),
{
    if a.len() > 0 {
        let (a1, b1) = (a.drop_last(), b.drop_last());
        assert forall|i: int| 0 <= i < a1.len() implies #[trigger] a1[i].id == b1[i].id by {
            assert(a1[i] == a[i] && b1[i] == b[i]);
        }
        lemma_position_same_ids(a1, b1, id);
    }
}

/// Where a row is changed in place and keeps its id, every link stays where
/// it was.
proof fn lemma_position_after_update(rows: Seq<LinkRow>, k: int, row: LinkRow, id: u128)
    requires
        0 <= k < rows.len(),
        row.id == rows[k].id,
    ensures
        position(rows.update(k, row), id) == position(rows, id),
{
    lemma_position_same_ids(rows.update(k, row), rows, id);
}

/// Where no row holds an id, that id has no position.
proof fn lemma_absent_has_no_position(rows: Seq<LinkRow>, id: u128)
    requires
        forall|i: int| 0 <= i < rows.len() ==> rows[i].id != id,
    ensures
        position(rows, id) < 0,
{
    lemma_position_bounds(rows, id);
}

/// A newly created link has no preview; once the preview fetch for it
/// succeeds, reading the link by id shows that preview, and its `updated_at`
/// is still its creation time.
pub proof fn lemma_enrichment_becomes_visible(
    rows: Seq<LinkRow>,
    users: Seq<UserRow>,
    id: u128,
    url: String,
    title: String,
    description: String,
    user_id: u128,
    now: i64,
    preview: LinkPreview,
)
    requires
        ids_unique(rows),
        newest_first(rows),
        position(rows, id) < 0,
    ensures
        lookup(after_create(rows, id, url, title, description, user_id, None, now), users, id)
            == Some(joined(fresh_row(id, url, title, description, user_id, None, now), users)),
        lookup(
            after_preview(
                after_create(rows, id, url, title, description, user_id, None, now),
                id,
                preview,
            ),
            users,
            id,
        ) == Some(
            joined(previewed(fresh_row(id, url, title, description, user_id, None, now), preview), users),
        ),
{
    let created = after_create(rows, id, url, title, description, user_id, None, now);
    lemma_create_keeps_wf(rows, id, url, title, description, user_id, None, now);
    lemma_slot_bounds(rows, now);
    let k = slot(rows, now);
    let row = fresh_row(id, url, title, description, user_id, None, now);
    assert(created[k] == row);
    lemma_position_after_update(created, k, previewed(row, preview), id);
}

/// Edits and clicks never change a link's preview: only a successful preview
/// fetch sets it, so after a failed one it stays absent.
pub proof fn lemma_preview_untouched(
    rows: Seq<LinkRow>,
    target: u128,
    id: u128,
    url: String,
    title: String,
    description: String,
    now: i64,
)
    ensures
        preview_of(after_click(rows, target), id) == preview_of(rows, id),
        preview_of(after_edit(rows, target, url, title, description, now), id) == preview_of(rows, id),
{
    lemma_position_bounds(rows, target);
    if position(rows, target) >= 0 {
        let k = position(rows, target);
        let c = rows.update(k, clicked(rows[k]));
        let e = rows.update(k, edited(rows[k], url, title, description, now));
        lemma_position_after_update(rows, k, clicked(rows[k]), id);
        lemma_position_after_update(rows, k, edited(rows[k], url, title, description, now), id);
        lemma_position_bounds(rows, id);
        assert(after_click(rows, target) == c);
        assert(after_edit(rows, target, url, title, description, now) == e);
        if position(rows, id) >= 0 {
            let j = position(rows, id);
            assert(c[j].preview == rows[j].preview);
            assert(e[j].preview == rows[j].preview);
        }
    }
}

/// A successful update sets the text fields and `updated_at` and keeps the
/// id, owner, clicks, creation time and preview; `updated_at` changes unless
/// the new time equals the old.
pub proof fn lemma_update_changes_only_text(
    rows: Seq<LinkRow>,
    users: Seq<UserRow>,
    id: u128,
    url: String,
    title: String,
    description: String,
    now: i64,
)
    requires
        position(rows, id) >= 0,
    ensures
        ({
            let before = lookup(rows, users, id)->Some_0;
            let after = lookup(after_edit(rows, id, url, title, description, now), users, id);
            &&& after is Some
            &&& after->Some_0 == Link { url, title, description, updated_at: now, ..before }
            &&& now != before.updated_at ==> after->Some_0.updated_at != before.updated_at
        }),
{
    lemma_position_bounds(rows, id);
    let k = position(rows, id);
    lemma_position_after_update(rows, k, edited(rows[k], url, title, description, now), id);
}

/// Clicks add up: `n` clicks on a link raise its count by exactly `n`, where
/// the sum fits in a `u64`.
pub proof fn lemma_clicks_add_up(rows: Seq<LinkRow>, users: Seq<UserRow>, id: u128, n: nat)
    requires
        position(rows, id) >= 0,
        rows[position(rows, id)].click_count + n <= u64::MAX,
    ensures
        position(after_clicks(rows, id, n), id) == position(rows, id),
        lookup(after_clicks(rows, id, n), users, id) is Some,
        lookup(after_clicks(rows, id, n), users, id)->Some_0.click_count == rows[position(rows, id)].click_count + n,
    decreases n,
{
    lemma_position_bounds(rows, id);
    if n > 0 {
        lemma_clicks_add_up(rows, users, id, (n - 1) as nat);
        let prev = after_clicks(rows, id, (n - 1) as nat);
        let k = position(prev, id);
        lemma_position_bounds(prev, id);
        lemma_position_after_update(prev, k, clicked(prev[k]), id);
    }
}

/// A click never lowers a count.
pub proof fn lemma_click_monotonic(rows: Seq<LinkRow>, target: u128, id: u128)
    requires
        position(rows, id) >= 0,
    ensures
        position(after_click(rows, target), id) == position(rows, id),
        after_click(rows, target)[position(rows, id)].click_count >= rows[position(rows, id)].click_count,
{
    lemma_position_bounds(rows, target);
    lemma_position_bounds(rows, id);
    if position(rows, target) >= 0 {
        let k = position(rows, target);
        lemma_position_after_update(rows, k, clicked(rows[k]), id);
    }
}

/// Deleting is idempotent: a second delete of the same id changes nothing,
/// and a deleted link reads as absent.
pub proof fn lemma_delete_idempotent(rows: Seq<LinkRow>, users: Seq<UserRow>, id: u128)
    requires
        ids_unique(rows),
    ensures
        lookup(after_delete(rows, id), users, id) is None,
        after_delete(after_delete(rows, id), id) == after_delete(rows, id),
{
    lemma_position_bounds(rows, id);
    let once = after_delete(rows, id);
    if position(rows, id) >= 0 {
        let k = position(rows, id);
        assert forall|i: int| 0 <= i < once.len() implies once[i].id != id by {
            if i < k {
                assert(once[i] == rows[i]);
            } else {
                assert(once[i] == rows[i + 1]);
            }
        }
        lemma_absent_has_no_position(once, id);
    }
}

/// Of two links created one after the other, the later one is listed first.
pub proof fn lemma_newer_listed_first(
    rows: Seq<LinkRow>,
    a: u128,
    a_url: String,
    a_title: String,
    a_description: String,
    a_user: u128,
    a_time: i64,
    b: u128,
    b_url: String,
    b_title: String,
    b_description: String,
    b_user: u128,
    b_time: i64,
)
    requires
        ids_unique(rows),
        newest_first(rows),
        position(rows, a) < 0,
        position(rows, b) < 0,
        a != b,
        a_time <= b_time,
    ensures
        ({
            let first = after_create(rows, a, a_url, a_title, a_description, a_user, None, a_time);
            let both = after_create(first, b, b_url, b_title, b_description, b_user, None, b_time);
            &&& 0 <= position(both, b) < position(both, a)
            &&& ids_unique(both)
            &&& newest_first(both)
        }),
{
    let first = after_create(rows, a, a_url, a_title, a_description, a_user, None, a_time);
    lemma_create_keeps_wf(rows, a, a_url, a_title, a_description, a_user, None, a_time);
    lemma_slot_bounds(rows, a_time);
    let ka = slot(rows, a_time);
    let row_a = fresh_row(a, a_url, a_title, a_description, a_user, None, a_time);
    assert(first == rows.insert(ka, row_a));
    lemma_position_bounds(rows, b);
    assert forall|i: int| 0 <= i < first.len() implies first[i].id != b by {
        if i < ka {
            assert(first[i] == rows[i]);
        } else if i > ka {
            assert(first[i] == rows[i - 1]);
        }
    }
    lemma_absent_has_no_position(first, b);
    let both = after_create(first, b, b_url, b_title, b_description, b_user, None, b_time);
    lemma_create_keeps_wf(first, b, b_url, b_title, b_description, b_user, None, b_time);
    lemma_slot_bounds(first, b_time);
    let kb = slot(first, b_time);
    let row_b = fresh_row(b, b_url, b_title, b_description, b_user, None, b_time);
    assert(both == first.insert(kb, row_b));
    assert(first[ka].created_at == a_time);
    assert(kb <= ka);
    assert(both[ka + 1] == first[ka]);
    lemma_position_unique(both, a, ka + 1);
}

} // verus!
