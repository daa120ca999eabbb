use vstd::prelude::*;

verus! {

/// Metadata fetched from a link's target page.
#[derive(Clone, Debug)]
pub struct LinkPreview {
    pub title: Option<String>,
    pub description: Option<String>,
    pub image: Option<String>,
}

/// The public summary of a link's owner, joined in on every read.
#[derive(Clone, Debug)]
pub struct SimpleUser {
    pub username: String,
}

/// A link as callers see it: the stored row together with its owner summary.
#[derive(Clone, Debug)]
pub struct Link {
    pub id: u128,
    pub url: String,
    pub title: String,
    pub description: String,
    pub user_id: u128,
    pub click_count: u64,
    pub created_at: i64,
    pub updated_at: i64,
    pub preview: Option<LinkPreview>,
    pub user: Option<SimpleUser>,
}

fn copy_text(s: &Option<String>) -> (r: Option<String>)
    ensures
        r == *s,
{
    match s {
        Some(t) => Some(t.clone()),
        None => None,
    }
}

impl LinkPreview {
    /// A field-by-field copy.
    pub fn copy(&self) -> (r: LinkPreview)
        ensures
            r == *self,
    {
        LinkPreview {
            title: copy_text(&self.title),
            description: copy_text(&self.description),
            image: copy_text(&self.image),
        }
    }
}

/// A field-by-field copy of an optional preview.
pub fn copy_preview(p: &Option<LinkPreview>) -> (r: Option<LinkPreview>)
    ensures
        r == *p,
{
    match p {
        Some(q) => Some(q.copy()),
        None => None,
    }
}

} // verus!
