use book_ingest::extract::{extract_catalog_items, extract_detail};
use book_ingest::walk::{extract_catalog_page, next_page_url, next_to_visit, CatalogPage};

const PAGE: &str = "https://books.example/catalogue/page-1.html";

fn card(title: &str, href: &str, price: &str) -> String {
    format!(
        "<li><article class=\"product_pod\"><h3><a href=\"{}\">{}</a></h3>\
         <div class=\"product_price\"><p class=\"price_color\">{}</p></div></article></li>",
        href, title, price
    )
}

fn catalog(cards: &[String], next: Option<&str>) -> String {
    let pager = match next {
        Some(n) => format!("<ul class=\"pager\"><li class=\"next\"><a href=\"{}\">next</a></li></ul>", n),
        None => String::new(),
    };
    format!("<html><body><ol>{}</ol>{}</body></html>", cards.concat(), pager)
}

fn detail(description: Option<&str>, rows: &[(&str, &str)]) -> String {
    let desc = match description {
        Some(d) => format!("<p>{}</p>", d),
        None => String::new(),
    };
    let table = if rows.is_empty() {
        String::new()
    } else {
        let body: Vec<String> =
            rows.iter().map(|(k, v)| format!("<tr><th>{}</th><td>{}</td></tr>", k, v)).collect();
        format!("<table class=\"table table-striped\">{}</table>", body.concat())
    };
    format!(
        "<html><body><article class=\"product_page\"><div class=\"product_main\">\
         <p class=\"price_color\">x</p></div>{}{}</article></body></html>",
        desc, table
    )
}

fn attr(attrs: &[(String, String)], name: &str) -> Option<String> {
    attrs.iter().find(|(k, _)| k == name).map(|(_, v)| v.clone())
}

#[test]
fn catalog_yields_one_stub_per_card_in_order() {
    let html = catalog(
        &[card("A", "/a", "£10.00"), card("B", "/b", "£20.00"), card("C", "c.html", "£30.00")],
        None,
    );
    let stubs = extract_catalog_items(PAGE, &html).ok().unwrap();
    assert_eq!(stubs.len(), 3);
    assert_eq!(stubs[0].title, "A");
    assert_eq!(stubs[0].price, "£10.00");
    assert_eq!(stubs[0].detail_url, "https://books.example/a");
    assert_eq!(stubs[1].title, "B");
    assert_eq!(stubs[1].detail_url, "https://books.example/b");
    assert_eq!(stubs[2].detail_url, "https://books.example/catalogue/c.html");
}

#[test]
fn catalog_without_cards_is_empty() {
    let stubs = extract_catalog_items(PAGE, &catalog(&[], None)).ok().unwrap();
    assert_eq!(stubs.len(), 0);
}

#[test]
fn catalog_card_without_price_is_an_error() {
    let broken = "<li><article class=\"product_pod\"><h3><a href=\"/z\">Z</a></h3></article></li>".to_string();
    let html = catalog(&[card("A", "/a", "£1"), broken], None);
    let err = extract_catalog_items(PAGE, &html).err().unwrap();
    assert_eq!(err.field, "price");
    assert_eq!(err.page_url, PAGE);
}

#[test]
fn catalog_card_without_link_target_is_an_error() {
    let broken = "<li><article class=\"product_pod\"><h3><a>Z</a></h3>\
                  <div class=\"product_price\"><p class=\"price_color\">£1</p></div></article></li>"
        .to_string();
    let err = extract_catalog_items(PAGE, &catalog(&[broken], None)).err().unwrap();
    assert_eq!(err.field, "href");
}

#[test]
fn catalog_card_without_title_is_an_error() {
    let broken = "<li><article class=\"product_pod\">\
                  <div class=\"product_price\"><p class=\"price_color\">£1</p></div></article></li>"
        .to_string();
    let err = extract_catalog_items(PAGE, &catalog(&[broken], None)).err().unwrap();
    assert_eq!(err.field, "title");
}

#[test]
fn catalog_page_resolves_next_link() {
    let html = catalog(&[card("A", "/a", "£1")], Some("page-2.html"));
    let page = extract_catalog_page(PAGE, &html).ok().unwrap();
    assert_eq!(page.url, PAGE);
    assert_eq!(page.items.len(), 1);
    assert_eq!(page.next_url.as_deref(), Some("https://books.example/catalogue/page-2.html"));
    assert_eq!(next_to_visit(&page).as_deref(), Some("https://books.example/catalogue/page-2.html"));
}

#[test]
fn walk_stops_without_next_link() {
    let html = catalog(&[card("A", "/a", "£1")], None);
    assert_eq!(next_page_url(PAGE, &html), None);
    let page = extract_catalog_page(PAGE, &html).ok().unwrap();
    assert_eq!(next_to_visit(&page), None);
}

#[test]
fn walk_stops_on_a_page_without_items() {
    let page = CatalogPage {
        url: PAGE.to_string(),
        items: Vec::new(),
        next_url: Some("https://books.example/catalogue/page-2.html".to_string()),
    };
    assert_eq!(next_to_visit(&page), None);
}

#[test]
fn detail_reads_description_and_rows() {
    let html = detail(Some("A fine book &amp; more"), &[("UPC", "111"), ("Tax", "£0.00")]);
    let d = extract_detail(PAGE, &html).ok().unwrap();
    assert_eq!(d.description, "A fine book & more");
    assert_eq!(d.attributes.len(), 2);
    assert_eq!(attr(&d.attributes, "UPC").as_deref(), Some("111"));
    assert_eq!(attr(&d.attributes, "Tax").as_deref(), Some("£0.00"));
}

#[test]
fn detail_without_table_has_no_attributes() {
    let html = detail(Some("Only words"), &[]);
    let d = extract_detail(PAGE, &html).ok().unwrap();
    assert_eq!(d.description, "Only words");
    assert!(d.attributes.is_empty());
}

#[test]
fn detail_without_description_fails_on_description() {
    let html = detail(None, &[("UPC", "111")]);
    let err = extract_detail(PAGE, &html).err().unwrap();
    assert_eq!(err.field, "description");
    assert_eq!(err.page_url, PAGE);
}

#[test]
fn detail_label_text_inside_values_is_not_split() {
    let html = detail(Some("d"), &[("Price", "Price (excl. tax): 3"), ("Availability", "In stock")]);
    let d = extract_detail(PAGE, &html).ok().unwrap();
    assert_eq!(attr(&d.attributes, "Price").as_deref(), Some("Price (excl. tax): 3"));
    assert_eq!(attr(&d.attributes, "Availability").as_deref(), Some("In stock"));
}

#[test]
fn detail_repeated_label_keeps_last_value() {
    let html = detail(Some("d"), &[("UPC", "1"), ("UPC", "2")]);
    let d = extract_detail(PAGE, &html).ok().unwrap();
    assert_eq!(d.attributes.len(), 1);
    assert_eq!(attr(&d.attributes, "UPC").as_deref(), Some("2"));
}

#[test]
fn detail_cells_are_trimmed() {
    let html = detail(Some("d"), &[("  UPC \n", "\n  abc  ")]);
    let d = extract_detail(PAGE, &html).ok().unwrap();
    assert_eq!(attr(&d.attributes, "UPC").as_deref(), Some("abc"));
}
