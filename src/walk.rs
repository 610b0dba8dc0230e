//! The catalog walk: what one catalog page yields, and whether the walk goes on.
//! Fetching each page is left to the caller, which hands its body back here.

use vstd::prelude::*;
use crate::extract::{
    attrs_within, catalog_items, extract_catalog_items, first_href, joined_url, opt_view,
    stub_views, NEXT_ITEM, NEXT_LINK,
};
use crate::model::{ExtractionError, ExtractionErrorView, ItemStub, StubView};

verus! {

/// A catalog page: its URL, its item stubs in document order, and the URL of
/// the next page if it links one.
pub struct CatalogPage {
    pub url: String,
    pub items: Vec<ItemStub>,
    pub next_url: Option<String>,
}

/// The absolute URL of the page that the "next" link points to, if any.
pub open spec fn next_link(page_url: Seq<char>, doc: Seq<char>) -> Option<Seq<char>> {
    let hs = attrs_within(doc, NEXT_ITEM@, NEXT_LINK@, "href"@);
    if hs.len() > 0 && first_href(hs[0]) is Some {
        joined_url(page_url, first_href(hs[0])->Some_0)
    } else {
        None
    }
}

/// The URL of the next catalog page, resolved against this page's URL.
pub fn next_page_url(page_url: &str, html: &str) -> (r: Option<String>)
    ensures
        opt_view(r) == next_link(page_url@, html@),
{
    let hs = crate::extract::select_attrs_within(html, NEXT_ITEM, NEXT_LINK, "href");
    if hs.len() == 0 || hs[0].len() == 0 {
        return None;
    }
    match &hs[0][0] {
        Some(h) => crate::extract::join_url(page_url, h.as_str()),
        None => None,
    }
}

/// Reads one fetched catalog page: its stubs and its next link. An extraction
/// error is terminal for this page only.
pub fn extract_catalog_page(page_url: &str, html: &str) -> (r: Result<CatalogPage, ExtractionError>)
    ensures
        match r {
            Ok(p) => p.url@ == page_url@ && catalog_items(page_url@, html@) == Ok::<
                Seq<StubView>,
                ExtractionErrorView,
            >(stub_views(p.items@)) && opt_view(p.next_url) == next_link(page_url@, html@),
            Err(e) => catalog_items(page_url@, html@) == Err::<Seq<StubView>, ExtractionErrorView>(
                e@,
            ),
        },
{
    let items = match extract_catalog_items(page_url, html) {
        Ok(v) => v,
        Err(e) => return Err(e),
    };
    let next_url = next_page_url(page_url, html);
    Ok(CatalogPage { url: page_url.to_owned(), items, next_url })
}

/// The walk goes on to the page that `page` links next, unless it links none
/// or it yielded no items, which ends the walk against malformed pagination.
pub fn next_to_visit(page: &CatalogPage) -> (r: Option<String>)
    ensures
        opt_view(r) == (if page.items@.len() == 0 {
            None::<Seq<char>>
        } else {
            opt_view(page.next_url)
        }),
{
    if page.items.len() == 0 {
        None
    } else {
        match &page.next_url {
            Some(u) => Some(u.clone()),
            None => None,
        }
    }
}

} // verus!
