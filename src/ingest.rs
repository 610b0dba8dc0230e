//! Ingestion: every completed detail fetch becomes exactly one record or one
//! classified failure, and the batch is judged against a failure tolerance.
//! Fetching runs elsewhere, concurrently; its results arrive here in any order.

use vstd::prelude::*;
use vstd::multiset::Multiset;
use crate::extract::{detail_fields, extract_detail};
use crate::fetch::{is_transient_status, transient_status, FetchOutcome, OutcomeView};
use crate::model::{
    ExtractionError, ExtractionErrorView, ItemRecord, ItemStub, RecordView, StubView,
};

verus! {

broadcast use vstd::seq_lib::group_to_multiset_ensures, vstd::multiset::group_multiset_axioms;

/// Why a stub produced no record.
pub enum FailureReason {
    Network(String),
    Timeout,
    HttpStatus { status: u16, permanent: bool },
    Extraction(ExtractionError),
}

pub enum ReasonView {
    Network(Seq<char>),
    Timeout,
    HttpStatus { status: u16, permanent: bool },
    Extraction(ExtractionErrorView),
}

impl View for FailureReason {
    type V = ReasonView;

    open spec fn view(&self) -> ReasonView {
        match self {
            FailureReason::Network(c) => ReasonView::Network(c@),
            FailureReason::Timeout => ReasonView::Timeout,
            FailureReason::HttpStatus { status, permanent } => ReasonView::HttpStatus {
                status: *status,
                permanent: *permanent,
            },
            FailureReason::Extraction(e) => ReasonView::Extraction(e@),
        }
    }
}

/// A stub that yielded no record, with the reason.
pub struct Failure {
    pub stub: ItemStub,
    pub reason: FailureReason,
}

pub struct FailureView {
    pub stub: StubView,
    pub reason: ReasonView,
}

impl View for Failure {
    type V = FailureView;

    open spec fn view(&self) -> FailureView {
        FailureView { stub: self.stub@, reason: self.reason@ }
    }
}

/// What a completed stub yields: a record when its page was fetched and
/// carries a description, else a failure that says why.
pub open spec fn process(stub: StubView, outcome: OutcomeView) -> Result<RecordView, FailureView> {
    match outcome {
        OutcomeView::Success(body) => match detail_fields(stub.detail_url, body) {
            Ok(d) => Ok(
                RecordView {
                    title: stub.title,
                    price: stub.price,
                    detail_url: stub.detail_url,
                    description: d.description,
                    attributes: d.attributes,
                },
            ),
            Err(e) => Err(FailureView { stub, reason: ReasonView::Extraction(e) }),
        },
        OutcomeView::HttpError(status) => Err(
            FailureView {
                stub,
                reason: ReasonView::HttpStatus { status, permanent: !transient_status(status) },
            },
        ),
        OutcomeView::NetworkError(c) => Err(FailureView { stub, reason: ReasonView::Network(c) }),
        OutcomeView::Timeout => Err(FailureView { stub, reason: ReasonView::Timeout }),
    }
}

pub open spec fn process_pair(p: (StubView, OutcomeView)) -> Result<RecordView, FailureView> {
    process(p.0, p.1)
}

pub fn process_detail(stub: &ItemStub, outcome: &FetchOutcome) -> (r: Result<ItemRecord, Failure>)
    ensures
        match r {
            Ok(rec) => rec.wf() && process(stub@, outcome@) == Ok::<RecordView, FailureView>(rec@),
            Err(f) => process(stub@, outcome@) == Err::<RecordView, FailureView>(f@),
        },
{
    match outcome {
        FetchOutcome::Success(body) => match extract_detail(stub.detail_url.as_str(), body.as_str()) {
            Ok(d) => Ok(
                ItemRecord {
                    title: stub.title.clone(),
                    price: stub.price.clone(),
                    detail_url: stub.detail_url.clone(),
                    description: d.description,
                    attributes: d.attributes,
                },
            ),
            Err(e) => Err(Failure { stub: stub.duplicate(), reason: FailureReason::Extraction(e) }),
        },
        FetchOutcome::HttpError(status) => Err(
            Failure {
                stub: stub.duplicate(),
                reason: FailureReason::HttpStatus {
                    status: *status,
                    permanent: !is_transient_status(*status),
                },
            },
        ),
        FetchOutcome::NetworkError(c) => Err(
            Failure { stub: stub.duplicate(), reason: FailureReason::Network(c.clone()) },
        ),
        FetchOutcome::Timeout => Err(
            Failure { stub: stub.duplicate(), reason: FailureReason::Timeout },
        ),
    }
}

/// The records and failures of a batch.
pub struct IngestReport {
    pub records: Vec<ItemRecord>,
    pub failures: Vec<Failure>,
}

pub struct ReportView {
    pub records: Seq<RecordView>,
    pub failures: Seq<FailureView>,
}

impl View for IngestReport {
    type V = ReportView;

    open spec fn view(&self) -> ReportView {
        ReportView {
            records: self.records@.map_values(|r: ItemRecord| r@),
            failures: self.failures@.map_values(|f: Failure| f@),
        }
    }
}

pub open spec fn pair_views(v: Seq<(ItemStub, FetchOutcome)>) -> Seq<(StubView, OutcomeView)> {
    v.map_values(|p: (ItemStub, FetchOutcome)| (p.0@, p.1@))
}

/// The report of a batch of completed fetches, taken in arrival order.
pub open spec fn ingest_spec(pairs: Seq<(StubView, OutcomeView)>) -> ReportView
    decreases pairs.len(),
{
    if pairs.len() == 0 {
        ReportView { records: Seq::empty(), failures: Seq::empty() }
    } else {
        let rest = ingest_spec(pairs.drop_last());
        match process_pair(pairs.last()) {
            Ok(r) => ReportView { records: rest.records.push(r), failures: rest.failures },
            Err(f) => ReportView { records: rest.records, failures: rest.failures.push(f) },
        }
    }
}

/// Joins a batch: each completed fetch, in arrival order, yields one record
/// or one failure; no failure halts the batch.
pub fn ingest(completed: &Vec<(ItemStub, FetchOutcome)>) -> (r: IngestReport)
    ensures
        r@ == ingest_spec(pair_views(completed@)),
        forall|i: int| 0 <= i < r.records@.len() ==> (#[trigger] r.records@[i]).wf(),
{
    let mut records: Vec<ItemRecord> = Vec::new();
    let mut failures: Vec<Failure> = Vec::new();
    let mut i: usize = 0;
    assert(pair_views(completed@).subrange(0, 0) =~= Seq::<(StubView, OutcomeView)>::empty());
    assert(records@.map_values(|r: ItemRecord| r@) =~= Seq::<RecordView>::empty());
    assert(failures@.map_values(|f: Failure| f@) =~= Seq::<FailureView>::empty());
    while i < completed.len()
        invariant
            i <= completed@.len(),
            (IngestReport { records, failures })@ == ingest_spec(
                pair_views(completed@).subrange(0, i as int),
            ),
            forall|k: int| 0 <= k < records@.len() ==> (#[trigger] records@[k]).wf(),
        decreases completed@.len() - i,
    {
        let ghost pv = pair_views(completed@);
        assert(pv.subrange(0, i + 1).drop_last() =~= pv.subrange(0, i as int));
        let ghost rv = records@;
        let ghost fv = failures@;
        match process_detail(&completed[i].0, &completed[i].1) {
            Ok(rec) => {
                records.push(rec);
                assert(records@.map_values(|r: ItemRecord| r@) =~= rv.map_values(
                    |r: ItemRecord| r@,
                ).push(rec@));
            },
            Err(f) => {
                failures.push(f);
                assert(failures@.map_values(|f: Failure| f@) =~= fv.map_values(
                    |f: Failure| f@,
                ).push(f@));
            },
        }
        i = i + 1;
    }
    assert(pair_views(completed@).subrange(0, completed@.len() as int) =~= pair_views(completed@));
    IngestReport { records, failures }
}

/// Every completed stub is accounted for: it yields exactly one of a record
/// or a failure.
pub proof fn lemma_each_stub_accounted(pairs: Seq<(StubView, OutcomeView)>)
    ensures
        ingest_spec(pairs).records.len() + ingest_spec(pairs).failures.len() == pairs.len(),
    decreases pairs.len(),
{
    if pairs.len() > 0 {
        lemma_each_stub_accounted(pairs.drop_last());
    }
}

pub open spec fn failing(p: (StubView, OutcomeView)) -> bool {
    process_pair(p) is Err
}

proof fn lemma_records_from(pairs: Seq<(StubView, OutcomeView)>, r: RecordView)
    ensures
        ingest_spec(pairs).records.contains(r) <==> exists|i: int|
            0 <= i < pairs.len() && process_pair(#[trigger] pairs[i]) == Ok::<
                RecordView,
                FailureView,
            >(r),
    decreases pairs.len(),
{
    if pairs.len() > 0 {
        let init = pairs.drop_last();
        lemma_records_from(init, r);
        if ingest_spec(pairs).records.contains(r) {
            if ingest_spec(init).records.contains(r) {
                let i = choose|i: int|
                    0 <= i < init.len() && process_pair(#[trigger] init[i]) == Ok::<
                        RecordView,
                        FailureView,
                    >(r);
                assert(pairs[i] == init[i]);
            } else {
                assert(process_pair(pairs[pairs.len() - 1]) == Ok::<RecordView, FailureView>(r));
            }
        } else {
            let rs0 = ingest_spec(init).records;
            if rs0.contains(r) {
                let k = choose|k: int| 0 <= k < rs0.len() && rs0[k] == r;
                assert(ingest_spec(pairs).records[k] == r);
            }
            assert forall|i: int|
                0 <= i < pairs.len() implies process_pair(#[trigger] pairs[i]) != Ok::<
                RecordView,
                FailureView,
            >(r) by {
                if i < pairs.len() - 1 {
                    assert(pairs[i] == init[i]);
                } else if process_pair(pairs[i]) == Ok::<RecordView, FailureView>(r) {
                    let rs = ingest_spec(init).records;
                    assert(ingest_spec(pairs).records == rs.push(r));
                    assert(ingest_spec(pairs).records[rs.len() as int] == r);
                }
            }
        }
    }
}

proof fn lemma_failure_count(pairs: Seq<(StubView, OutcomeView)>)
    ensures
        ingest_spec(pairs).failures.len() == pairs.to_multiset().filter(|p| failing(p)).len(),
    decreases pairs.len(),
{
    let f = |p| failing(p);
    if pairs.len() == 0 {
        assert(pairs.to_multiset().filter(f) =~= Multiset::empty());
    } else {
        let init = pairs.drop_last();
        let x = pairs.last();
        lemma_failure_count(init);
        assert(init.push(x) == pairs);
        let m = init.to_multiset();
        assert(pairs.to_multiset() == m.insert(x));
        if failing(x) {
            assert(m.insert(x).filter(f) =~= m.filter(f).insert(x));
        } else {
            assert(m.insert(x).filter(f) =~= m.filter(f));
        }
    }
}

/// Ingestion does not depend on the order in which completed fetches arrive:
/// any two arrival orders of the same completed fetches (as with one worker or
/// with sixteen) give the same set of records and the same number of failures.
pub proof fn lemma_ingest_order_independent(
    a: Seq<(StubView, OutcomeView)>,
    b: Seq<(StubView, OutcomeView)>,
)
    requires
        a.to_multiset() == b.to_multiset(),
    ensures
        ingest_spec(a).records.to_set() == ingest_spec(b).records.to_set(),
        ingest_spec(a).failures.len() == ingest_spec(b).failures.len(),
{
    lemma_failure_count(a);
    lemma_failure_count(b);
    assert forall|r: RecordView|
        ingest_spec(a).records.to_set().contains(r) == ingest_spec(b).records.to_set().contains(
            r,
        ) by {
        lemma_records_from(a, r);
        lemma_records_from(b, r);
        if exists|i: int|
            0 <= i < a.len() && process_pair(#[trigger] a[i]) == Ok::<RecordView, FailureView>(r) {
            let i = choose|i: int|
                0 <= i < a.len() && process_pair(#[trigger] a[i]) == Ok::<RecordView, FailureView>(
                    r,
                );
            assert(a.contains(a[i]));
            vstd::seq_lib::to_multiset_contains(a, a[i]);
            vstd::seq_lib::to_multiset_contains(b, a[i]);
            assert(b.contains(a[i]));
        }
        if exists|i: int|
            0 <= i < b.len() && process_pair(#[trigger] b[i]) == Ok::<RecordView, FailureView>(r) {
            let i = choose|i: int|
                0 <= i < b.len() && process_pair(#[trigger] b[i]) == Ok::<RecordView, FailureView>(
                    r,
                );
            assert(b.contains(b[i]));
            vstd::seq_lib::to_multiset_contains(a, b[i]);
            vstd::seq_lib::to_multiset_contains(b, b[i]);
            assert(a.contains(b[i]));
        }
    }
    assert(ingest_spec(a).records.to_set() =~= ingest_spec(b).records.to_set());
}

/// The run fails when more than `tolerance_percent` percent of the stubs failed.
pub open spec fn over_tolerance(failed: nat, total: nat, tolerance_percent: nat) -> bool {
    failed * 100 > total * tolerance_percent
}

pub fn exceeds_tolerance(failed: usize, total: usize, tolerance_percent: u64) -> (r: bool)
    ensures
        r == over_tolerance(failed as nat, total as nat, tolerance_percent as nat),
{
    let f: u128 = failed as u128;
    let t: u128 = total as u128;
    let p: u128 = tolerance_percent as u128;
    assert(t * p <= 0xffff_ffff_ffff_ffffu128 * 0xffff_ffff_ffff_ffffu128) by (nonlinear_arith)
        requires
            t <= 0xffff_ffff_ffff_ffffu128,
            p <= 0xffff_ffff_ffff_ffffu128,
    ;
    f * 100 > t * p
}

/// The process exit status: 0 within tolerance, 1 beyond it.
pub fn exit_status(failed: usize, total: usize, tolerance_percent: u64) -> (r: i32)
    ensures
        r == (if over_tolerance(failed as nat, total as nat, tolerance_percent as nat) {
            1i32
        } else {
            0i32
        }),
{
    if exceeds_tolerance(failed, total, tolerance_percent) {
        1
    } else {
        0
    }
}

} // verus!
