use book_ingest::extract::extract_catalog_items;
use book_ingest::fetch::FetchOutcome;
use book_ingest::ingest::{exceeds_tolerance, exit_status, ingest, process_detail, FailureReason};
use book_ingest::model::{ItemRecord, ItemStub};
use book_ingest::store::{ensure_schema, find_by_link, persist, row_count, tally, BATCH_SIZE};
use rusqlite::Connection;

const CATALOG_URL: &str = "https://books.example/index.html";

fn catalog_html() -> String {
    let card = |t: &str, h: &str, p: &str| {
        format!(
            "<article class=\"product_pod\"><h3><a href=\"{}\">{}</a></h3>\
             <div class=\"product_price\"><p class=\"price_color\">{}</p></div></article>",
            h, t, p
        )
    };
    format!("<html><body>{}{}</body></html>", card("A", "/a", "£10.00"), card("B", "/b", "£20.00"))
}

fn detail_html(description: &str) -> String {
    format!(
        "<html><body><article class=\"product_page\"><p>{}</p>\
         <table class=\"table table-striped\"><tr><th>UPC</th><td>u-{}</td></tr>\
         <tr><th>Tax</th><td>£0.00</td></tr></table></article></body></html>",
        description, description
    )
}

fn stub(n: usize) -> ItemStub {
    ItemStub {
        title: format!("T{}", n),
        price: format!("£{}.00", n),
        detail_url: format!("https://books.example/{}", n),
    }
}

fn store() -> Connection {
    let mut conn = Connection::open_in_memory().unwrap();
    assert!(ensure_schema(&mut conn).is_ok());
    conn
}

fn attr(r: &ItemRecord, name: &str) -> Option<String> {
    r.attributes.iter().find(|(k, _)| k == name).map(|(_, v)| v.clone())
}

/// Runs catalog extraction, ingestion and persistence once; returns the
/// ingested records, the number of failures and the number of rows written.
fn run_pipeline(conn: &mut Connection) -> (Vec<ItemRecord>, usize, usize) {
    let stubs = extract_catalog_items(CATALOG_URL, &catalog_html()).ok().unwrap();
    // two workers: the second detail page completes first
    let completed: Vec<(ItemStub, FetchOutcome)> = stubs
        .into_iter()
        .rev()
        .map(|s| {
            let body = detail_html(if s.title == "A" { "about a" } else { "about b" });
            (s, FetchOutcome::Success(body))
        })
        .collect();
    let report = ingest(&completed);
    let written = persist(conn, &report.records, BATCH_SIZE).written;
    (report.records, report.failures.len(), written)
}

#[test]
fn end_to_end_two_items_upserted_twice() {
    let mut conn = store();
    let (records, failures, written) = run_pipeline(&mut conn);
    assert_eq!(records.len(), 2);
    assert_eq!(failures, 0);
    assert_eq!(written, 2);
    let a = records.iter().find(|r| r.title == "A").unwrap();
    let b = records.iter().find(|r| r.title == "B").unwrap();
    assert_eq!(a.price, "£10.00");
    assert_eq!(b.price, "£20.00");
    assert_eq!(a.detail_url, "https://books.example/a");
    assert_eq!(b.detail_url, "https://books.example/b");
    assert_eq!(a.description, "about a");
    assert_eq!(b.description, "about b");
    assert_eq!(a.attributes.len(), 2);
    assert_eq!(attr(a, "UPC").as_deref(), Some("u-about a"));
    assert_eq!(attr(b, "Tax").as_deref(), Some("£0.00"));
    assert_eq!(row_count(&conn).ok(), Some(2));
    let _ = run_pipeline(&mut conn);
    assert_eq!(row_count(&conn).ok(), Some(2));
}

#[test]
fn one_not_found_among_ten_is_tolerated() {
    let completed: Vec<(ItemStub, FetchOutcome)> = (0..10)
        .map(|n| {
            let outcome = if n == 4 {
                FetchOutcome::HttpError(404)
            } else {
                FetchOutcome::Success(detail_html("d"))
            };
            (stub(n), outcome)
        })
        .collect();
    let report = ingest(&completed);
    assert_eq!(report.records.len(), 9);
    assert_eq!(report.failures.len(), 1);
    let f = &report.failures[0];
    assert_eq!(f.stub.detail_url, "https://books.example/4");
    assert!(matches!(f.reason, FailureReason::HttpStatus { status: 404, permanent: true }));
    assert!(!exceeds_tolerance(1, 10, 10));
    assert_eq!(exit_status(1, 10, 10), 0);
    assert!(exceeds_tolerance(2, 10, 10));
    assert_eq!(exit_status(2, 10, 10), 1);
}

#[test]
fn arrival_order_does_not_change_the_result() {
    let make = |order: Vec<usize>| -> Vec<(ItemStub, FetchOutcome)> {
        order
            .into_iter()
            .map(|n| {
                let outcome = match n {
                    2 => FetchOutcome::Timeout,
                    5 => FetchOutcome::Success("<html><body>no article</body></html>".to_string()),
                    _ => FetchOutcome::Success(detail_html(&format!("d{}", n))),
                };
                (stub(n), outcome)
            })
            .collect()
    };
    let one = ingest(&make((0..16).collect()));
    let many = ingest(&make(vec![15, 3, 9, 0, 12, 5, 1, 14, 7, 2, 11, 6, 13, 4, 10, 8]));
    let urls = |rs: &Vec<ItemRecord>| {
        let mut v: Vec<(String, String)> =
            rs.iter().map(|r| (r.detail_url.clone(), r.description.clone())).collect();
        v.sort();
        v
    };
    assert_eq!(urls(&one.records), urls(&many.records));
    assert_eq!(one.records.len(), 14);
    assert_eq!(one.failures.len(), 2);
    assert_eq!(many.failures.len(), 2);
}

#[test]
fn failures_are_classified() {
    let s = stub(1);
    match process_detail(&s, &FetchOutcome::HttpError(503)).err().unwrap().reason {
        FailureReason::HttpStatus { status, permanent } => {
            assert_eq!(status, 503);
            assert!(!permanent);
        }
        _ => panic!("expected an HTTP status failure"),
    }
    assert!(matches!(
        process_detail(&s, &FetchOutcome::Timeout).err().unwrap().reason,
        FailureReason::Timeout
    ));
    match process_detail(&s, &FetchOutcome::NetworkError("refused".to_string())).err().unwrap().reason {
        FailureReason::Network(c) => assert_eq!(c, "refused"),
        _ => panic!("expected a network failure"),
    }
    match process_detail(&s, &FetchOutcome::Success("<p>x</p>".to_string())).err().unwrap().reason {
        FailureReason::Extraction(e) => {
            assert_eq!(e.field, "description");
            assert_eq!(e.page_url, "https://books.example/1");
        }
        _ => panic!("expected an extraction failure"),
    }
}

#[test]
fn persisting_twice_keeps_one_row_per_link() {
    let mut conn = store();
    let completed: Vec<(ItemStub, FetchOutcome)> =
        (0..3).map(|n| (stub(n), FetchOutcome::Success(detail_html("d")))).collect();
    let first = ingest(&completed);
    let second = ingest(&completed);
    assert_eq!(persist(&mut conn, &first.records, BATCH_SIZE).written, 3);
    assert_eq!(persist(&mut conn, &second.records, BATCH_SIZE).written, 3);
    assert_eq!(row_count(&conn).ok(), Some(3));
}

#[test]
fn stored_record_reads_back_equal() {
    let mut conn = store();
    let report = ingest(&vec![(stub(7), FetchOutcome::Success(detail_html("seven")))]);
    let rec = &report.records[0];
    assert_eq!(persist(&mut conn, &report.records, BATCH_SIZE).written, 1);
    let row = find_by_link(&conn, &rec.detail_url).ok().unwrap().unwrap();
    assert_eq!(row.title, rec.title);
    assert_eq!(row.price, rec.price);
    assert_eq!(row.link, rec.detail_url);
    assert_eq!(row.description, rec.description);
    assert!(find_by_link(&conn, "https://books.example/none").ok().unwrap().is_none());
}

#[test]
fn batch_with_unkeyed_record_is_not_written() {
    let mut conn = store();
    let mut records = ingest(
        &(0..5).map(|n| (stub(n), FetchOutcome::Success(detail_html("d")))).collect::<Vec<_>>(),
    )
    .records;
    records[3].detail_url = String::new();
    let report = persist(&mut conn, &records, 2);
    assert_eq!(report.committed, vec![true, false, true]);
    assert!(report.settled);
    assert_eq!(report.written, 3);
    assert_eq!(report.unwritten, 2);
    assert_eq!(row_count(&conn).ok(), Some(3));
}

#[test]
fn persisting_nothing_writes_nothing() {
    let mut conn = store();
    let report = persist(&mut conn, &Vec::new(), BATCH_SIZE);
    assert!(report.committed.is_empty());
    assert_eq!(report.written, 0);
    assert_eq!(report.unwritten, 0);
    assert_eq!(row_count(&conn).ok(), Some(0));
}

#[test]
fn upsert_replaces_the_row_under_a_link() {
    let mut conn = store();
    let mut records = ingest(&vec![(stub(1), FetchOutcome::Success(detail_html("old")))]).records;
    assert_eq!(persist(&mut conn, &records, BATCH_SIZE).written, 1);
    records[0].title = "A, B: C".to_string();
    records[0].description = "x: y, z".to_string();
    assert_eq!(persist(&mut conn, &records, BATCH_SIZE).written, 1);
    assert_eq!(row_count(&conn).ok(), Some(1));
    let row = find_by_link(&conn, "https://books.example/1").ok().unwrap().unwrap();
    assert_eq!(row.title, "A, B: C");
    assert_eq!(row.description, "x: y, z");
}

#[test]
fn schema_setup_keeps_existing_rows() {
    let mut conn = store();
    let records = ingest(&vec![(stub(2), FetchOutcome::Success(detail_html("d")))]).records;
    assert_eq!(persist(&mut conn, &records, BATCH_SIZE).written, 1);
    assert!(ensure_schema(&mut conn).is_ok());
    assert_eq!(row_count(&conn).ok(), Some(1));
}

#[test]
fn batches_split_at_the_batch_size() {
    let mut conn = store();
    let records = ingest(
        &(0..5).map(|n| (stub(n), FetchOutcome::Success(detail_html("d")))).collect::<Vec<_>>(),
    )
    .records;
    let report = persist(&mut conn, &records, 2);
    assert_eq!(report.committed, vec![true, true, true]);
    assert_eq!(report.written, 5);
    assert_eq!(tally(5, 2, &vec![true, false, true]), 3);
    assert_eq!(tally(5, 2, &vec![false, true, false]), 2);
    assert_eq!(tally(5, 2, &vec![false, false, true]), 1);
}
