//! The marketplace endpoints of the LiquidBounce API: what they answer, and where a revision
//! is downloaded from.

use vstd::prelude::*;
use super::ItemType;
use crate::app::client_api::{Build, Client, PaginatedResponse};
use crate::utils::text::{decimal, push_decimal, push_str};

verus! {

/// An item as the marketplace lists it.
pub struct Item {
    pub id: u32,
    pub name: String,
    pub item_type: ItemType,
    pub description: String,
    pub author: String,
    pub downloads: u32,
    /// Seconds since the epoch, as the marketplace writes the time without a zone.
    pub updated_at: Option<i64>,
}

/// A published revision of an item.
pub struct Revision {
    pub id: u32,
    pub version: String,
    /// Seconds since the epoch, as the marketplace writes the time without a zone.
    pub created_at: Option<i64>,
    /// The LiquidBounce versions of the builds it fits; `None` when none does.
    pub liquidbounce: Option<LiquidBounceRange>,
}

/// The LiquidBounce versions of the builds a revision fits, from `min` to `max`.
pub struct LiquidBounceRange {
    pub min: String,
    pub max: String,
}

/// An item an item needs, as the marketplace links it.
pub struct Linked {
    pub item: Item,
}

/// The path of the marketplace's endpoints below the API.
pub open spec fn api_v3() -> Seq<char> {
    "api/v3"@
}

/// Where the marketplace serves a revision's file.
pub fn download_url(client: &Client, item_id: u32, revision_id: u32) -> (r: String)
    ensures
        r@ == client.url_spec() + "/"@ + api_v3() + "/marketplace/"@ + decimal(item_id as nat)
            + "/revisions/"@ + decimal(revision_id as nat) + "/download"@,
{
    let mut r = client.url().clone();
    push_str(&mut r, "/");
    push_str(&mut r, "api/v3");
    push_str(&mut r, "/marketplace/");
    push_decimal(&mut r, item_id as u64);
    push_str(&mut r, "/revisions/");
    push_decimal(&mut r, revision_id as u64);
    push_str(&mut r, "/download");
    r
}

/// The items that the marketplace links as what an item needs, in its order.
pub fn linked_items(linked: Vec<Linked>) -> (r: Vec<Item>)
    ensures
        r@ == linked@.map_values(|l: Linked| l.item),
{
    let mut rest = linked;
    let mut r: Vec<Item> = Vec::new();
    while rest.len() > 0
        invariant
            r@.len() + rest@.len() == linked@.len(),
            r@ == linked@.take(r@.len() as int).map_values(|l: Linked| l.item),
            rest@ == linked@.skip(r@.len() as int),
        decreases rest@.len(),
    {
        let ghost k = r@.len() as int;
        let l = rest.remove(0);
        r.push(l.item);
        assert(linked@.take(k + 1) =~= linked@.take(k).push(linked@[k]));
        assert(r@ =~= linked@.take(k + 1).map_values(|l: Linked| l.item));
        assert(rest@ =~= linked@.skip(k + 1));
    }
    assert(linked@.take(linked@.len() as int) =~= linked@);
    r
}

/// A query parameter of a request: its name and its value.
pub open spec fn param_views(params: Seq<(String, String)>) -> Seq<(Seq<char>, Seq<char>)> {
    params.map_values(|p: (String, String)| (p.0@, p.1@))
}

fn owned(s: &str) -> (r: String)
    ensures
        r@ == s@,
{
    let mut r = String::new();
    push_str(&mut r, s);
    r
}

/// The query that lists items of one type on the branch, `limit` of them, searching for `query`
/// where one is given. The API leaves add-ons out of untyped listings, so LiquidBounce builds
/// predating add-ons never receive a type they cannot read.
pub fn items_query(item_type: &str, query: Option<&str>, limit: u32, branch: &str) -> (r: Vec<(String, String)>)
    ensures
        param_views(r@) == seq![("limit"@, decimal(limit as nat)), ("branch"@, branch@), ("type"@, item_type@)]
            + match query {
                Some(q) => seq![("q"@, q@)],
                None => Seq::empty(),
            },
{
    let mut r: Vec<(String, String)> = Vec::new();
    let mut l = String::new();
    push_decimal(&mut l, limit as u64);
    r.push((owned("limit"), l));
    r.push((owned("branch"), owned(branch)));
    r.push((owned("type"), owned(item_type)));
    match query {
        Some(q) => r.push((owned("q"), owned(q))),
        None => {},
    }
    assert(param_views(r@) =~= seq![("limit"@, decimal(limit as nat)), ("branch"@, branch@), ("type"@, item_type@)]
        + match query {
            Some(q) => seq![("q"@, q@)],
            None => Seq::<(Seq<char>, Seq<char>)>::empty(),
        });
    r
}

/// Every revision that fits a build, gathered a page at a time from the first page on, newest
/// first, until the page the API calls its last.
pub struct RevisionPages {
    page: u32,
    revisions: Vec<Revision>,
    done: bool,
}

impl RevisionPages {
    /// The page asked for next.
    pub closed spec fn page_spec(&self) -> nat {
        self.page as nat
    }

    /// The revisions gathered so far.
    pub closed spec fn gathered(&self) -> Seq<Revision> {
        self.revisions@
    }

    /// Whether the last page was read.
    pub closed spec fn done_spec(&self) -> bool {
        self.done
    }

    /// Nothing gathered yet: the first page is asked for first.
    pub fn new() -> (r: Self)
        ensures
            r.page_spec() == 1,
            r.gathered() == Seq::<Revision>::empty(),
            !r.done_spec(),
    {
        RevisionPages { page: 1, revisions: Vec::new(), done: false }
    }

    /// Whether the last page was read.
    pub fn is_done(&self) -> (r: bool)
        ensures
            r == self.done_spec(),
    {
        self.done
    }

    /// The query for the page asked for next: the build's Minecraft and LiquidBounce versions,
    /// the page, and fifty to a page.
    pub fn query(&self, build: &Build) -> (r: Vec<(String, String)>)
        ensures
            param_views(r@) == seq![
                ("minecraft"@, build.mc_version@),
                ("liquidbounce"@, build.lb_version@),
                ("page"@, decimal(self.page_spec())),
                ("limit"@, "50"@),
            ],
    {
        let mut r: Vec<(String, String)> = Vec::new();
        r.push((owned("minecraft"), build.mc_version.clone()));
        r.push((owned("liquidbounce"), build.lb_version.clone()));
        let mut p = String::new();
        push_decimal(&mut p, self.page as u64);
        r.push((owned("page"), p));
        r.push((owned("limit"), owned("50")));
        assert(param_views(r@) =~= seq![
            ("minecraft"@, build.mc_version@),
            ("liquidbounce"@, build.lb_version@),
            ("page"@, decimal(self.page_spec())),
            ("limit"@, "50"@),
        ]);
        r
    }

    /// Takes the answer for the page asked for: its revisions join those gathered, and the page
    /// is the last where the API counts no more pages than it; else the next one is asked for.
    pub fn take(&mut self, response: PaginatedResponse<Revision>) -> (done: bool)
        requires
            !old(self).done_spec(),
        ensures
            final(self).gathered() == old(self).gathered() + response.items@,
            done == (old(self).page_spec() >= response.pagination.pages),
            final(self).done_spec() == done,
            done ==> final(self).page_spec() == old(self).page_spec(),
            !done ==> final(self).page_spec() == old(self).page_spec() + 1,
    {
        let mut items = response.items;
        self.revisions.append(&mut items);
        if self.page >= response.pagination.pages {
            self.done = true;
        } else {
            self.page = self.page + 1;
        }
        self.done
    }

    /// The revisions gathered.
    pub fn into_revisions(self) -> (r: Vec<Revision>)
        ensures
            r@ == self.gathered(),
    {
        self.revisions
    }
}

} // verus!
