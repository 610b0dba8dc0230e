//! The data model: stubs, records, extraction errors, and their views.

use vstd::prelude::*;

verus! {

/// Minimal identifying data for an item, enough to fetch its detail page.
pub struct ItemStub {
    pub title: String,
    pub price: String,
    pub detail_url: String,
}

pub struct StubView {
    pub title: Seq<char>,
    pub price: Seq<char>,
    pub detail_url: Seq<char>,
}

impl View for ItemStub {
    type V = StubView;

    open spec fn view(&self) -> StubView {
        StubView { title: self.title@, price: self.price@, detail_url: self.detail_url@ }
    }
}

impl ItemStub {
    pub fn duplicate(&self) -> (r: ItemStub)
        ensures
            r@ == self@,
    {
        ItemStub {
            title: self.title.clone(),
            price: self.price.clone(),
            detail_url: self.detail_url.clone(),
        }
    }
}

/// The map that a list of (name, value) pairs denotes; a later pair wins.
pub open spec fn attr_map(s: Seq<(String, String)>) -> Map<Seq<char>, Seq<char>>
    decreases s.len(),
{
    if s.len() == 0 {
        Map::empty()
    } else {
        attr_map(s.drop_last()).insert(s.last().0@, s.last().1@)
    }
}

/// No attribute name occurs twice.
pub open spec fn keys_unique(s: Seq<(String, String)>) -> bool {
    forall|i: int, j: int| 0 <= i < j < s.len() ==> s[i].0@ != s[j].0@
}

/// What a detail page yields: its description and its attribute table.
pub struct DetailFields {
    pub description: String,
    pub attributes: Vec<(String, String)>,
}

pub struct DetailView {
    pub description: Seq<char>,
    pub attributes: Map<Seq<char>, Seq<char>>,
}

impl View for DetailFields {
    type V = DetailView;

    open spec fn view(&self) -> DetailView {
        DetailView { description: self.description@, attributes: attr_map(self.attributes@) }
    }
}

impl DetailFields {
    pub open spec fn wf(&self) -> bool {
        keys_unique(self.attributes@)
    }
}

/// The unit persisted to storage; `detail_url` is its natural key.
pub struct ItemRecord {
    pub title: String,
    pub price: String,
    pub detail_url: String,
    pub description: String,
    pub attributes: Vec<(String, String)>,
}

pub struct RecordView {
    pub title: Seq<char>,
    pub price: Seq<char>,
    pub detail_url: Seq<char>,
    pub description: Seq<char>,
    pub attributes: Map<Seq<char>, Seq<char>>,
}

impl View for ItemRecord {
    type V = RecordView;

    open spec fn view(&self) -> RecordView {
        RecordView {
            title: self.title@,
            price: self.price@,
            detail_url: self.detail_url@,
            description: self.description@,
            attributes: attr_map(self.attributes@),
        }
    }
}

impl ItemRecord {
    pub open spec fn wf(&self) -> bool {
        keys_unique(self.attributes@)
    }
}

/// A required node was missing: which field, on which page.
pub struct ExtractionError {
    pub field: String,
    pub page_url: String,
}

pub struct ExtractionErrorView {
    pub field: Seq<char>,
    pub page_url: Seq<char>,
}

impl View for ExtractionError {
    type V = ExtractionErrorView;

    open spec fn view(&self) -> ExtractionErrorView {
        ExtractionErrorView { field: self.field@, page_url: self.page_url@ }
    }
}

pub open spec fn missing(field: Seq<char>, page_url: Seq<char>) -> ExtractionErrorView {
    ExtractionErrorView { field, page_url }
}

pub fn extraction_error(field: &str, page_url: &str) -> (r: ExtractionError)
    ensures
        r@ == missing(field@, page_url@),
{
    ExtractionError { field: field.to_owned(), page_url: page_url.to_owned() }
}

} // verus!
