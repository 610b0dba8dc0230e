//! Structural extraction of catalog stubs and detail fields from HTML.
//!
//! The document tree is walked by the `scraper` crate; what a query returns is
//! named below, and the extraction rules are stated and proved over those names.

use vstd::prelude::*;
use crate::model::{
    attr_map, extraction_error, keys_unique, missing, DetailFields, DetailView, ExtractionError,
    ExtractionErrorView, ItemStub, StubView,
};

verus! {

/// For each element matching `outer`, in document order, the decoded text of
/// each descendant matching `inner`, in document order.
pub uninterp spec fn texts_within(doc: Seq<char>, outer: Seq<char>, inner: Seq<char>) -> Seq<
    Seq<Seq<char>>,
>;

/// For each element matching `outer`, in document order, the value of
/// attribute `attr` on each descendant matching `inner`, in document order.
pub uninterp spec fn attrs_within(
    doc: Seq<char>,
    outer: Seq<char>,
    inner: Seq<char>,
    attr: Seq<char>,
) -> Seq<Seq<Option<Seq<char>>>>;

/// The text with leading and trailing whitespace removed.
pub uninterp spec fn trimmed(s: Seq<char>) -> Seq<char>;

/// Relies on `str::trim`: strips leading and trailing whitespace.
#[verifier::external_body]
fn trim_text(s: &str) -> (r: String)
    ensures
        r@ == trimmed(s@),
{
    s.trim().to_owned()
}

/// The absolute URL that `reference` denotes on the page at `base`, if both parse.
pub uninterp spec fn joined_url(base: Seq<char>, reference: Seq<char>) -> Option<Seq<char>>;

pub open spec fn opt_view(o: Option<String>) -> Option<Seq<char>> {
    match o {
        Some(s) => Some(s@),
        None => None,
    }
}

pub open spec fn nested_texts(v: Seq<Vec<String>>) -> Seq<Seq<Seq<char>>> {
    v.map_values(|row: Vec<String>| row@.map_values(|s: String| s@))
}

pub open spec fn nested_attrs(v: Seq<Vec<Option<String>>>) -> Seq<Seq<Option<Seq<char>>>> {
    v.map_values(|row: Vec<Option<String>>| row@.map_values(|o: Option<String>| opt_view(o)))
}

/// Relies on scraper's `Html::parse_document`, `Selector::parse`,
/// `ElementRef::select` and `ElementRef::text`: one query, whose result depends
/// on its three arguments alone. A selector that does not parse matches nothing.
#[verifier::external_body]
fn select_texts_within(doc: &str, outer: &str, inner: &str) -> (r: Vec<Vec<String>>)
    ensures
        nested_texts(r@) == texts_within(doc@, outer@, inner@),
{
    let page = scraper::Html::parse_document(doc);
    match (scraper::Selector::parse(outer), scraper::Selector::parse(inner)) {
        (Ok(o), Ok(i)) => page.root_element().select(&o).map(
            |e| e.select(&i).map(|m| m.text().collect::<String>()).collect(),
        ).collect(),
        _ => Vec::new(),
    }
}

/// Relies on scraper's `Html::parse_document`, `Selector::parse`,
/// `ElementRef::select` and `ElementRef::attr`: one query, whose result depends
/// on its four arguments alone. A selector that does not parse matches nothing.
#[verifier::external_body]
pub(crate) fn select_attrs_within(doc: &str, outer: &str, inner: &str, attr: &str) -> (r: Vec<
    Vec<Option<String>>,
>)
    ensures
        nested_attrs(r@) == attrs_within(doc@, outer@, inner@, attr@),
{
    let page = scraper::Html::parse_document(doc);
    match (scraper::Selector::parse(outer), scraper::Selector::parse(inner)) {
        (Ok(o), Ok(i)) => page.root_element().select(&o).map(
            |e| e.select(&i).map(|m| m.attr(attr).map(|a| a.to_owned())).collect(),
        ).collect(),
        _ => Vec::new(),
    }
}

/// Relies on `reqwest::Url::parse` and `Url::join` (the `url` crate): resolves
/// a link found on a page against that page's URL.
#[verifier::external_body]
pub(crate) fn join_url(base: &str, reference: &str) -> (r: Option<String>)
    ensures
        opt_view(r) == joined_url(base@, reference@),
{
    match reqwest::Url::parse(base) {
        Ok(b) => match b.join(reference) {
            Ok(u) => Some(u.as_str().to_owned()),
            Err(_) => None,
        },
        Err(_) => None,
    }
}

pub const CARD: &'static str = "article.product_pod";
pub const CARD_LINK: &'static str = "h3 > a";
pub const CARD_PRICE: &'static str = "div.product_price > p.price_color";
pub const NEXT_ITEM: &'static str = "li.next";
pub const NEXT_LINK: &'static str = "a";
pub const PRODUCT: &'static str = "article.product_page";
pub const DESCRIPTION: &'static str = "article.product_page > p";
pub const TABLE_ROW: &'static str = "table.table.table-striped tr";
pub const ROW_LABEL: &'static str = "th";
pub const ROW_VALUE: &'static str = "td";

pub open spec fn stub_views(v: Seq<ItemStub>) -> Seq<StubView> {
    v.map_values(|s: ItemStub| s@)
}

pub open spec fn first_href(s: Seq<Option<Seq<char>>>) -> Option<Seq<char>> {
    if s.len() > 0 {
        s[0]
    } else {
        None
    }
}

/// The stub that item card `i` yields, given what the card queries returned:
/// its link texts, its price texts and its link targets.
pub open spec fn card_stub(
    page_url: Seq<char>,
    titles: Seq<Seq<Seq<char>>>,
    prices: Seq<Seq<Seq<char>>>,
    hrefs: Seq<Seq<Option<Seq<char>>>>,
    i: int,
) -> Result<StubView, ExtractionErrorView> {
    if titles[i].len() == 0 {
        Err(missing("title"@, page_url))
    } else if !(i < hrefs.len() && first_href(hrefs[i]) is Some) {
        Err(missing("href"@, page_url))
    } else if joined_url(page_url, first_href(hrefs[i])->Some_0) is None {
        Err(missing("href"@, page_url))
    } else if !(i < prices.len() && prices[i].len() > 0) {
        Err(missing("price"@, page_url))
    } else {
        Ok(
            StubView {
                title: titles[i][0],
                price: prices[i][0],
                detail_url: joined_url(page_url, first_href(hrefs[i])->Some_0)->Some_0,
            },
        )
    }
}

/// The stubs of the first `n` cards, or the error of the first card that lacks
/// a required field.
pub open spec fn cards_prefix(
    page_url: Seq<char>,
    titles: Seq<Seq<Seq<char>>>,
    prices: Seq<Seq<Seq<char>>>,
    hrefs: Seq<Seq<Option<Seq<char>>>>,
    n: int,
) -> Result<Seq<StubView>, ExtractionErrorView>
    decreases n,
{
    if n <= 0 {
        Ok(Seq::empty())
    } else {
        match cards_prefix(page_url, titles, prices, hrefs, n - 1) {
            Err(e) => Err(e),
            Ok(s) => match card_stub(page_url, titles, prices, hrefs, n - 1) {
                Err(e) => Err(e),
                Ok(st) => Ok(s.push(st)),
            },
        }
    }
}

pub open spec fn card_titles(doc: Seq<char>) -> Seq<Seq<Seq<char>>> {
    texts_within(doc, CARD@, CARD_LINK@)
}

pub open spec fn card_prices(doc: Seq<char>) -> Seq<Seq<Seq<char>>> {
    texts_within(doc, CARD@, CARD_PRICE@)
}

pub open spec fn card_hrefs(doc: Seq<char>) -> Seq<Seq<Option<Seq<char>>>> {
    attrs_within(doc, CARD@, CARD_LINK@, "href"@)
}

/// The number of item-card nodes on a catalog page.
pub open spec fn card_count(doc: Seq<char>) -> int {
    card_titles(doc).len() as int
}

pub open spec fn card_at(page_url: Seq<char>, doc: Seq<char>, i: int) -> Result<
    StubView,
    ExtractionErrorView,
> {
    card_stub(page_url, card_titles(doc), card_prices(doc), card_hrefs(doc), i)
}

/// The stubs of a catalog page, in document order.
pub open spec fn catalog_items(page_url: Seq<char>, doc: Seq<char>) -> Result<
    Seq<StubView>,
    ExtractionErrorView,
> {
    cards_prefix(page_url, card_titles(doc), card_prices(doc), card_hrefs(doc), card_count(doc))
}

/// Every item card of the page carries a title, a resolvable link and a price.
pub open spec fn well_formed_catalog(page_url: Seq<char>, doc: Seq<char>) -> bool {
    forall|i: int| 0 <= i < card_count(doc) ==> (#[trigger] card_at(page_url, doc, i)) is Ok
}

proof fn lemma_cards_error_persists(
    page_url: Seq<char>,
    titles: Seq<Seq<Seq<char>>>,
    prices: Seq<Seq<Seq<char>>>,
    hrefs: Seq<Seq<Option<Seq<char>>>>,
    k: int,
    n: int,
)
    requires
        0 <= k <= n,
        cards_prefix(page_url, titles, prices, hrefs, k) is Err,
    ensures
        cards_prefix(page_url, titles, prices, hrefs, n) == cards_prefix(
            page_url,
            titles,
            prices,
            hrefs,
            k,
        ),
    decreases n - k,
{
    if k < n {
        lemma_cards_error_persists(page_url, titles, prices, hrefs, k, n - 1);
    }
}

fn first_text(v: &Vec<String>) -> (r: Option<String>)
    ensures
        opt_view(r) == (if v@.len() > 0 {
            Some(v@[0]@)
        } else {
            None::<Seq<char>>
        }),
{
    if v.len() > 0 {
        Some(v[0].clone())
    } else {
        None
    }
}

fn stub_of_card(
    page_url: &str,
    titles: &Vec<Vec<String>>,
    prices: &Vec<Vec<String>>,
    hrefs: &Vec<Vec<Option<String>>>,
    i: usize,
) -> (r: Result<ItemStub, ExtractionError>)
    requires
        i < titles@.len(),
    ensures
        match r {
            Ok(s) => card_stub(
                page_url@,
                nested_texts(titles@),
                nested_texts(prices@),
                nested_attrs(hrefs@),
                i as int,
            ) == Ok::<StubView, ExtractionErrorView>(s@),
            Err(e) => card_stub(
                page_url@,
                nested_texts(titles@),
                nested_texts(prices@),
                nested_attrs(hrefs@),
                i as int,
            ) == Err::<StubView, ExtractionErrorView>(e@),
        },
{
    let title = match first_text(&titles[i]) {
        Some(t) => t,
        None => return Err(extraction_error("title", page_url)),
    };
    if i >= hrefs.len() || hrefs[i].len() == 0 {
        return Err(extraction_error("href", page_url));
    }
    let detail_url = match &hrefs[i][0] {
        Some(h) => match join_url(page_url, h.as_str()) {
            Some(u) => u,
            None => return Err(extraction_error("href", page_url)),
        },
        None => return Err(extraction_error("href", page_url)),
    };
    if i >= prices.len() {
        return Err(extraction_error("price", page_url));
    }
    let price = match first_text(&prices[i]) {
        Some(p) => p,
        None => return Err(extraction_error("price", page_url)),
    };
    Ok(ItemStub { title, price, detail_url })
}

/// The stubs of a catalog page, one per item card, in document order; fails
/// with the first card that lacks its title, link or price.
pub fn extract_catalog_items(page_url: &str, html: &str) -> (r: Result<Vec<ItemStub>, ExtractionError>)
    ensures
        match r {
            Ok(v) => catalog_items(page_url@, html@) == Ok::<Seq<StubView>, ExtractionErrorView>(
                stub_views(v@),
            ),
            Err(e) => catalog_items(page_url@, html@) == Err::<Seq<StubView>, ExtractionErrorView>(
                e@,
            ),
        },
{
    let titles = select_texts_within(html, CARD, CARD_LINK);
    let prices = select_texts_within(html, CARD, CARD_PRICE);
    let hrefs = select_attrs_within(html, CARD, CARD_LINK, "href");
    let mut stubs: Vec<ItemStub> = Vec::new();
    let mut i: usize = 0;
    assert(stub_views(stubs@) =~= Seq::<StubView>::empty());
    while i < titles.len()
        invariant
            i <= titles@.len(),
            nested_texts(titles@) == card_titles(html@),
            nested_texts(prices@) == card_prices(html@),
            nested_attrs(hrefs@) == card_hrefs(html@),
            cards_prefix(page_url@, card_titles(html@), card_prices(html@), card_hrefs(html@), i as int)
                == Ok::<Seq<StubView>, ExtractionErrorView>(stub_views(stubs@)),
        decreases titles@.len() - i,
    {
        let stub = match stub_of_card(page_url, &titles, &prices, &hrefs, i) {
            Ok(s) => s,
            Err(e) => {
                proof {
                    lemma_cards_error_persists(
                        page_url@,
                        card_titles(html@),
                        card_prices(html@),
                        card_hrefs(html@),
                        i + 1,
                        card_count(html@),
                    );
                }
                return Err(e);
            },
        };
        let ghost prev = stubs@;
        let ghost sv = stub@;
        stubs.push(stub);
        assert(stub_views(stubs@) =~= stub_views(prev).push(sv));
        i = i + 1;
    }
    Ok(stubs)
}

proof fn lemma_cards_prefix_ok(page_url: Seq<char>, doc: Seq<char>, n: int)
    requires
        0 <= n <= card_count(doc),
        well_formed_catalog(page_url, doc),
    ensures
        cards_prefix(page_url, card_titles(doc), card_prices(doc), card_hrefs(doc), n) is Ok,
        cards_prefix(page_url, card_titles(doc), card_prices(doc), card_hrefs(doc), n)->Ok_0.len()
            == n,
        forall|i: int|
            0 <= i < n ==> cards_prefix(
                page_url,
                card_titles(doc),
                card_prices(doc),
                card_hrefs(doc),
                n,
            )->Ok_0[i] == card_at(page_url, doc, i)->Ok_0,
    decreases n,
{
    if n > 0 {
        lemma_cards_prefix_ok(page_url, doc, n - 1);
        assert(card_at(page_url, doc, n - 1) is Ok);
    }
}

/// On a catalog page whose every item card carries its required fields,
/// extraction succeeds with exactly one stub per item card, and the stub at
/// position `i` is the one that card `i` yields, so document order is kept.
pub proof fn lemma_catalog_one_stub_per_card(page_url: Seq<char>, doc: Seq<char>)
    requires
        well_formed_catalog(page_url, doc),
    ensures
        catalog_items(page_url, doc) is Ok,
        catalog_items(page_url, doc)->Ok_0.len() == card_count(doc),
        forall|i: int|
            0 <= i < card_count(doc) ==> catalog_items(page_url, doc)->Ok_0[i] == card_at(
                page_url,
                doc,
                i,
            )->Ok_0,
{
    lemma_cards_prefix_ok(page_url, doc, card_count(doc));
}

/// The attribute map of the first `n` table rows, label and value each the
/// cell's trimmed text; a row that lacks its label cell or its value cell adds
/// nothing, and a later row wins over an earlier one with the same label.
pub open spec fn rows_map(labels: Seq<Seq<Seq<char>>>, values: Seq<Seq<Seq<char>>>, n: int) -> Map<
    Seq<char>,
    Seq<char>,
>
    decreases n,
{
    if n <= 0 {
        Map::empty()
    } else if labels[n - 1].len() > 0 && values[n - 1].len() > 0 {
        rows_map(labels, values, n - 1).insert(trimmed(labels[n - 1][0]), trimmed(values[n - 1][0]))
    } else {
        rows_map(labels, values, n - 1)
    }
}

pub open spec fn descriptions(doc: Seq<char>) -> Seq<Seq<Seq<char>>> {
    texts_within(doc, PRODUCT@, DESCRIPTION@)
}

pub open spec fn row_labels(doc: Seq<char>) -> Seq<Seq<Seq<char>>> {
    texts_within(doc, TABLE_ROW@, ROW_LABEL@)
}

pub open spec fn row_values(doc: Seq<char>) -> Seq<Seq<Seq<char>>> {
    texts_within(doc, TABLE_ROW@, ROW_VALUE@)
}

pub open spec fn row_count(doc: Seq<char>) -> int {
    if row_labels(doc).len() <= row_values(doc).len() {
        row_labels(doc).len() as int
    } else {
        row_values(doc).len() as int
    }
}

/// The page has a description paragraph.
pub open spec fn has_description(doc: Seq<char>) -> bool {
    descriptions(doc).len() > 0 && descriptions(doc)[0].len() > 0
}

/// The fields of a detail page: the description paragraph is required, the
/// attribute rows are optional.
pub open spec fn detail_fields(page_url: Seq<char>, doc: Seq<char>) -> Result<
    DetailView,
    ExtractionErrorView,
> {
    if !has_description(doc) {
        Err(missing("description"@, page_url))
    } else {
        Ok(
            DetailView {
                description: descriptions(doc)[0][0],
                attributes: rows_map(row_labels(doc), row_values(doc), row_count(doc)),
            },
        )
    }
}

proof fn lemma_attr_map_update(s: Seq<(String, String)>, j: int, p: (String, String))
    requires
        keys_unique(s),
        0 <= j < s.len(),
        p.0@ == s[j].0@,
    ensures
        keys_unique(s.update(j, p)),
        attr_map(s.update(j, p)) == attr_map(s).insert(p.0@, p.1@),
    decreases s.len(),
{
    let t = s.update(j, p);
    if j == s.len() - 1 {
        assert(t.drop_last() =~= s.drop_last());
        assert(attr_map(t) =~= attr_map(s).insert(p.0@, p.1@));
    } else {
        assert(t.drop_last() =~= s.drop_last().update(j, p));
        lemma_attr_map_update(s.drop_last(), j, p);
        assert(attr_map(t) =~= attr_map(s).insert(p.0@, p.1@));
    }
}

/// Sets attribute `name` to `value`, replacing an earlier value of that name.
fn upsert_attr(attrs: &mut Vec<(String, String)>, name: String, value: String)
    requires
        keys_unique(old(attrs)@),
    ensures
        keys_unique(final(attrs)@),
        attr_map(final(attrs)@) == attr_map(old(attrs)@).insert(name@, value@),
{
    let mut j: usize = 0;
    while j < attrs.len()
        invariant
            j <= attrs@.len(),
            attrs@ == old(attrs)@,
            keys_unique(attrs@),
            forall|k: int| 0 <= k < j ==> attrs@[k].0@ != name@,
        decreases attrs@.len() - j,
    {
        if attrs[j].0 == name {
            proof {
                lemma_attr_map_update(attrs@, j as int, (name, value));
            }
            attrs.set(j, (name, value));
            return;
        }
        j = j + 1;
    }
    let ghost prev = attrs@;
    attrs.push((name, value));
    assert(attrs@.drop_last() =~= prev);
}

/// The description and attribute table of a detail page. A missing table gives
/// an empty attribute map; a missing description paragraph is an error.
pub fn extract_detail(page_url: &str, html: &str) -> (r: Result<DetailFields, ExtractionError>)
    ensures
        match r {
            Ok(d) => d.wf() && detail_fields(page_url@, html@) == Ok::<
                DetailView,
                ExtractionErrorView,
            >(d@),
            Err(e) => detail_fields(page_url@, html@) == Err::<DetailView, ExtractionErrorView>(
                e@,
            ),
        },
{
    let found = select_texts_within(html, PRODUCT, DESCRIPTION);
    if found.len() == 0 {
        return Err(extraction_error("description", page_url));
    }
    let description = match first_text(&found[0]) {
        Some(d) => d,
        None => return Err(extraction_error("description", page_url)),
    };
    let labels = select_texts_within(html, TABLE_ROW, ROW_LABEL);
    let values = select_texts_within(html, TABLE_ROW, ROW_VALUE);
    let mut attributes: Vec<(String, String)> = Vec::new();
    let mut i: usize = 0;
    while i < labels.len() && i < values.len()
        invariant
            i <= labels@.len(),
            i <= values@.len(),
            nested_texts(labels@) == row_labels(html@),
            nested_texts(values@) == row_values(html@),
            keys_unique(attributes@),
            attr_map(attributes@) == rows_map(row_labels(html@), row_values(html@), i as int),
        decreases labels@.len() - i,
    {
        match (first_text(&labels[i]), first_text(&values[i])) {
            (Some(name), Some(value)) => upsert_attr(
                &mut attributes,
                trim_text(name.as_str()),
                trim_text(value.as_str()),
            ),
            _ => {},
        }
        i = i + 1;
    }
    Ok(DetailFields { description, attributes })
}

/// A detail page without an attribute table still yields its description,
/// with an empty attribute map.
pub proof fn lemma_detail_without_table(page_url: Seq<char>, doc: Seq<char>)
    requires
        has_description(doc),
        row_labels(doc).len() == 0,
    ensures
        detail_fields(page_url, doc) == Ok::<DetailView, ExtractionErrorView>(
            DetailView {
                description: descriptions(doc)[0][0],
                attributes: Map::empty(),
            },
        ),
{
}

/// A detail page without a description paragraph fails with an extraction
/// error on the field "description".
pub proof fn lemma_detail_without_description(page_url: Seq<char>, doc: Seq<char>)
    requires
        !has_description(doc),
    ensures
        detail_fields(page_url, doc) is Err,
        detail_fields(page_url, doc)->Err_0.field == "description"@,
        detail_fields(page_url, doc)->Err_0.page_url == page_url,
{
}

} // verus!
