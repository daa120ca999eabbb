use vstd::prelude::*;
use crate::model::{Link, LinkPreview};
use crate::outside::{new_link_id, now_micros};
use crate::queries::{
    self, after_click, after_create, after_delete, after_edit, after_preview, fresh_row, lookup,
};
use crate::store::{joined, position, LinkStore};

verus! {

/// What a request on links can fail with.
#[derive(Clone, Copy, Debug, PartialEq, Eq)]
pub enum LinkError {
    /// The request body is malformed.
    Validation,
    /// No link has the id.
    NotFound,
    /// The requester does not own the link.
    Forbidden,
    /// The store refused the write.
    Storage,
}

impl LinkError {
    /// The HTTP status that reports the error.
    pub open spec fn spec_status(self) -> u16 {
        match self {
            LinkError::Validation => 422,
            LinkError::NotFound => 404,
            LinkError::Forbidden => 403,
            LinkError::Storage => 500,
        }
    }

    /// The HTTP status that reports the error.
    pub fn status_code(&self) -> (r: u16)
        ensures
            r == self.spec_status(),
    {
        match self {
            LinkError::Validation => 422,
            LinkError::NotFound => 404,
            LinkError::Forbidden => 403,
            LinkError::Storage => 500,
        }
    }
}

/// The ownership guard's verdict.
#[derive(Clone, Copy, Debug, PartialEq, Eq)]
pub enum Access {
    Allowed,
    Forbidden,
}

/// The ownership guard: a requester may change a link only if it is theirs.
pub fn authorize(requester_id: u128, owner_id: u128) -> (r: Access)
    ensures
        r == (if requester_id == owner_id { Access::Allowed } else { Access::Forbidden }),
{
    if requester_id == owner_id {
        Access::Allowed
    } else {
        Access::Forbidden
    }
}

/// What a guarded change (update or delete) of link `id` by `requester`
/// comes to before it is made: `NotFound`, `Forbidden`, or `None` where it
/// may go ahead.
pub open spec fn guard_refusal(store: LinkStore, requester: u128, id: u128) -> Option<LinkError> {
    match lookup(store.links@, store.users@, id) {
        None => Some(LinkError::NotFound),
        Some(l) => if l.user_id == requester {
            None
        } else {
            Some(LinkError::Forbidden)
        },
    }
}

/// Lists every link, newest first.
pub fn get_links(store: &LinkStore) -> (r: Vec<Link>)
    requires
        store.wf(),
    ensures
        r@.len() == store.links@.len(),
        forall|i: int| 0 <= i < r@.len() ==> r@[i] == joined(store.links@[i], store.users@),
        forall|i: int, j: int| 0 <= i < j < r@.len() ==> r@[i].created_at >= r@[j].created_at,
{
    queries::get_all_links(store)
}

/// Fetches one link, or `NotFound`.
pub fn get_link_by_id_handler(store: &LinkStore, link_id: u128) -> (r: Result<Link, LinkError>)
    ensures
        r == match lookup(store.links@, store.users@, link_id) {
            Some(l) => Ok::<Link, LinkError>(l),
            None => Err(LinkError::NotFound),
        },
{
    match queries::get_link_by_id(store, link_id) {
        Some(link) => Ok(link),
        None => Err(LinkError::NotFound),
    }
}

/// Creates a link owned by `user_id` with the given id and time, and with no
/// preview: the preview is attached later, apart from the request.
pub fn create_link_at(
    store: &mut LinkStore,
    user_id: u128,
    id: u128,
    url: String,
    title: String,
    description: String,
    now: i64,
) -> (r: Result<Link, LinkError>)
    requires
        old(store).wf(),
    ensures
        final(store).wf(),
        final(store).users@ == old(store).users@,
        final(store).links@ == after_create(old(store).links@, id, url, title, description, user_id, None, now),
        position(old(store).links@, id) >= 0 ==> r == Err::<Link, LinkError>(LinkError::Storage),
        position(old(store).links@, id) < 0 ==> r == Ok::<Link, LinkError>(
            joined(fresh_row(id, url, title, description, user_id, None, now), old(store).users@),
        ),
        r is Ok ==> r->Ok_0.preview.is_none() && r->Ok_0.click_count == 0,
{
    match queries::create_link(store, id, url, title, description, user_id, None, now) {
        Ok(link) => Ok(link),
        Err(_) => Err(LinkError::Storage),
    }
}

/// Creates a link owned by `user_id` under a fresh random id, stamped with the
/// time now. The returned link has no preview and no clicks; the store holds
/// it. Should the id be taken, nothing is stored and `Storage` comes back.
pub fn handle_create_link(store: &mut LinkStore, user_id: u128, url: String, title: String, description: String) -> (r: Result<Link, LinkError>)
    requires
        old(store).wf(),
    ensures
        final(store).wf(),
        final(store).users@ == old(store).users@,
        old(store).links@.len() == 0 ==> r is Ok,
        r is Err ==> r == Err::<Link, LinkError>(LinkError::Storage) && final(store).links@ == old(store).links@,
        r is Ok ==> {
            let link = r->Ok_0;
            &&& position(old(store).links@, link.id) < 0
            &&& link == joined(
                fresh_row(link.id, url, title, description, user_id, None, link.created_at),
                old(store).users@,
            )
            &&& final(store).links@ == after_create(
                old(store).links@,
                link.id,
                url,
                title,
                description,
                user_id,
                None,
                link.created_at,
            )
        },
{
    let id = new_link_id();
    let now = now_micros();
    create_link_at(store, user_id, id, url, title, description, now)
}

/// Finishes enrichment of link `link_id` with what the preview fetch gave:
/// a preview is attached; a failed fetch changes nothing and reports nothing.
pub fn apply_enrichment(store: &mut LinkStore, link_id: u128, fetched: Option<LinkPreview>)
    requires
        old(store).wf(),
    ensures
        final(store).wf(),
        final(store).users@ == old(store).users@,
        final(store).links@ == match fetched {
            Some(p) => after_preview(old(store).links@, link_id, p),
            None => old(store).links@,
        },
{
    if let Some(p) = fetched {
        queries::attach_preview(store, link_id, p);
    }
}

/// Counts a click on a link, whoever asks; a link that is not there is no
/// error.
pub fn track_click(store: &mut LinkStore, link_id: u128)
    requires
        old(store).wf(),
    ensures
        final(store).wf(),
        final(store).users@ == old(store).users@,
        final(store).links@ == after_click(old(store).links@, link_id),
{
    queries::increment_click_count(store, link_id)
}

/// Deletes link `link_id` on behalf of `requester`: `NotFound` where there is
/// no such link, `Forbidden` where it is someone else's; either way the store
/// stays as it was.
pub fn delete_link(store: &mut LinkStore, requester: u128, link_id: u128) -> (r: Result<(), LinkError>)
    requires
        old(store).wf(),
    ensures
        final(store).wf(),
        final(store).users@ == old(store).users@,
        match guard_refusal(*old(store), requester, link_id) {
            Some(e) => r == Err::<(), LinkError>(e) && final(store).links@ == old(store).links@,
            None => r == Ok::<(), LinkError>(()) && final(store).links@ == after_delete(
                old(store).links@,
                link_id,
            ),
        },
{
    match queries::get_link_by_id(store, link_id) {
        Some(link) => {
            match authorize(requester, link.user_id) {
                Access::Forbidden => Err(LinkError::Forbidden),
                Access::Allowed => {
                    queries::delete_link(store, link_id);
                    Ok(())
                },
            }
        },
        None => Err(LinkError::NotFound),
    }
}

/// Updates link `link_id` on behalf of `requester` at time `now`: `NotFound`
/// where there is no such link, `Forbidden` where it is someone else's (the
/// store stays as it was); else the edited link.
pub fn update_link_at(
    store: &mut LinkStore,
    requester: u128,
    link_id: u128,
    url: String,
    title: String,
    description: String,
    now: i64,
) -> (r: Result<Link, LinkError>)
    requires
        old(store).wf(),
    ensures
        final(store).wf(),
        final(store).users@ == old(store).users@,
        match guard_refusal(*old(store), requester, link_id) {
            Some(e) => r == Err::<Link, LinkError>(e) && final(store).links@ == old(store).links@,
            None => {
                &&& final(store).links@ == after_edit(old(store).links@, link_id, url, title, description, now)
                &&& r == Ok::<Link, LinkError>(lookup(final(store).links@, final(store).users@, link_id)->Some_0)
                &&& lookup(final(store).links@, final(store).users@, link_id) is Some
                &&& r->Ok_0.updated_at == now
            },
        },
{
    match queries::get_link_by_id(store, link_id) {
        Some(link) => {
            match authorize(requester, link.user_id) {
                Access::Forbidden => Err(LinkError::Forbidden),
                Access::Allowed => {
                    match queries::update_link(store, link_id, url, title, description, now) {
                        Some(updated) => Ok(updated),
                        None => Err(LinkError::NotFound),
                    }
                },
            }
        },
        None => Err(LinkError::NotFound),
    }
}

/// Updates link `link_id` on behalf of `requester`, stamped with the time
/// now; refusals as for `update_link_at`.
pub fn update_link_handler(
    store: &mut LinkStore,
    requester: u128,
    link_id: u128,
    url: String,
    title: String,
    description: String,
) -> (r: Result<Link, LinkError>)
    requires
        old(store).wf(),
    ensures
        final(store).wf(),
        final(store).users@ == old(store).users@,
        match guard_refusal(*old(store), requester, link_id) {
            Some(e) => r == Err::<Link, LinkError>(e) && final(store).links@ == old(store).links@,
            None => r is Ok && final(store).links@ == after_edit(
                old(store).links@,
                link_id,
                url,
                title,
                description,
                r->Ok_0.updated_at,
            ) && r == Ok::<Link, LinkError>(lookup(final(store).links@, final(store).users@, link_id)->Some_0),
        },
{
    let now = now_micros();
    update_link_at(store, requester, link_id, url, title, description, now)
}

} // verus!
