//! Listing every character of one kind.
//!
//! A scan lists all keys, fetches all their values in one call and keeps the
//! records of the wanted kind, in the order in which the store listed their
//! keys. That order is the store's and may differ from one scan to the next.
//! A value that is no record does not end the scan: it is left out and
//! counted.

use crate::error::QueryError;
use crate::models::{CharacterRecord, StarWarsChar};
use crate::store::{Fetched, FetchedView, Reply, ReplyView, Request, RequestView};
use vstd::prelude::*;

verus! {

/// What a scan found.
#[derive(Debug, PartialEq, Eq)]
pub struct ScanReport {
    /// The records of the wanted kind, in the order of their keys.
    pub records: Vec<StarWarsChar>,
    /// How many values were left out because they are no records.
    pub decode_failures: usize,
}

/// A report as plain values.
pub ghost struct ScanReportView {
    pub records: Seq<CharacterRecord>,
    pub decode_failures: nat,
}

impl View for ScanReport {
    type V = ScanReportView;

    open spec fn view(&self) -> ScanReportView {
        ScanReportView {
            records: self.records.deep_view(),
            decode_failures: self.decode_failures as nat,
        }
    }
}

/// The record that a fetched value adds to a scan for one kind, if any.
pub open spec fn wanted(fetched: FetchedView, want_human: bool) -> Option<CharacterRecord> {
    match fetched {
        FetchedView::Record(record) if record.is_human == want_human => Some(record),
        _ => None,
    }
}

/// `wanted` for one kind, as a function of the fetched value.
pub open spec fn wanted_of(want_human: bool) -> spec_fn(FetchedView) -> Option<CharacterRecord> {
    |one: FetchedView| wanted(one, want_human)
}

/// Whether a fetched value is no record.
pub open spec fn malformed() -> spec_fn(FetchedView) -> bool {
    |one: FetchedView| one is Malformed
}

/// What a scan for one kind reports of the values fetched: the records of
/// that kind in their order, and the number of values that are no records.
pub open spec fn report_of(fetched: Seq<FetchedView>, want_human: bool) -> ScanReportView {
    ScanReportView {
        records: fetched.filter_map(wanted_of(want_human)),
        decode_failures: fetched.filter(malformed()).len(),
    }
}

/// Keeps the records of the wanted kind and counts the values that are no
/// records. A key without a value adds nothing to either.
pub fn collect(fetched: Vec<Fetched>, want_human: bool) -> (report: ScanReport)
    ensures
        report@ == report_of(fetched.deep_view(), want_human),
{
    let ghost all = fetched.deep_view();
    let total: usize = fetched.len();
    let mut records: Vec<StarWarsChar> = Vec::new();
    let mut decode_failures: usize = 0;
    for one in it: fetched.into_iter()
        invariant
            all.len() == it.seq().len() == total,
            forall|i: int| 0 <= i < all.len() ==> all[i] == (#[trigger] it.seq()[i])@,
            records.deep_view() == all.take(it.index() as int).filter_map(wanted_of(want_human)),
            decode_failures == all.take(it.index() as int).filter(malformed()).len(),
            decode_failures <= it.index(),
    {
        let ghost at = it.index() as int;
        proof {
            let keep = wanted_of(want_human);
            let broken = malformed();
            all.lemma_filter_map_take_succ(keep, at);
            reveal(Seq::filter);
            let longer = all.take(at + 1);
            assert(longer.drop_last() =~= all.take(at));
            assert(longer.filter(broken) == if broken(longer.last()) {
                longer.drop_last().filter(broken).push(longer.last())
            } else {
                longer.drop_last().filter(broken)
            });
        }
        match one {
            Fetched::Record(record) => {
                if record.is_human == want_human {
                    records.push(record);
                }
            },
            Fetched::Malformed => {
                decode_failures = decode_failures + 1;
            },
            Fetched::Absent => {},
        }
    }
    assert(all.take(all.len() as int) =~= all);
    ScanReport { records, decode_failures }
}

#[derive(Debug)]
enum Stage {
    Listing,
    Fetching(Vec<String>),
}

/// A scan that waits for the store's answer to its pending request.
#[derive(Debug)]
pub struct Scan {
    stage: Stage,
    want_human: bool,
}

/// A scan as plain values.
pub ghost enum ScanView {
    /// All keys are being listed.
    Listing { want_human: bool },
    /// The values under the listed keys are being fetched.
    Fetching { keys: Seq<Seq<char>>, want_human: bool },
}

/// Where a scan stands after an answer.
#[derive(Debug)]
pub enum ScanProgress {
    /// The scan has another request to make.
    Pending(Scan),
    /// The scan has ended.
    Done(Result<ScanReport, QueryError>),
}

/// The progress of a scan as plain values.
pub ghost enum ScanProgressView {
    Pending(ScanView),
    Done(Result<ScanReportView, QueryError>),
}

impl ScanView {
    /// The kind of character that the scan keeps.
    pub open spec fn want_human(self) -> bool {
        match self {
            ScanView::Listing { want_human } => want_human,
            ScanView::Fetching { want_human, .. } => want_human,
        }
    }

    /// The call that the scan waits for.
    pub open spec fn request(self) -> RequestView {
        match self {
            ScanView::Listing { .. } => RequestView::ListKeys(seq!['*']),
            ScanView::Fetching { keys, .. } => RequestView::GetValues(keys),
        }
    }

    /// Where the scan stands after `reply`.
    ///
    /// A listing of no key ends it with an empty report; the keys of any other
    /// listing are fetched next, all at once. The values fetched end it with
    /// their report. A store that could not be reached, an answer to another
    /// call than the pending one, or values that are not one for each key end
    /// it with `StoreUnavailable`.
    pub open spec fn advance(self, reply: ReplyView) -> ScanProgressView {
        match (self, reply) {
            (ScanView::Listing { want_human }, ReplyView::Keys(keys)) => {
                if keys.len() == 0 {
                    ScanProgressView::Done(Ok(report_of(Seq::empty(), want_human)))
                } else {
                    ScanProgressView::Pending(ScanView::Fetching { keys, want_human })
                }
            },
            (ScanView::Fetching { keys, want_human }, ReplyView::Values(values)) => {
                if values.len() == keys.len() {
                    ScanProgressView::Done(Ok(report_of(values, want_human)))
                } else {
                    ScanProgressView::Done(Err(QueryError::StoreUnavailable))
                }
            },
            _ => ScanProgressView::Done(Err(QueryError::StoreUnavailable)),
        }
    }
}

impl View for Scan {
    type V = ScanView;

    closed spec fn view(&self) -> ScanView {
        match self.stage {
            Stage::Listing => ScanView::Listing { want_human: self.want_human },
            Stage::Fetching(keys) => ScanView::Fetching {
                keys: keys.deep_view(),
                want_human: self.want_human,
            },
        }
    }
}

impl View for ScanProgress {
    type V = ScanProgressView;

    open spec fn view(&self) -> ScanProgressView {
        match self {
            ScanProgress::Pending(scan) => ScanProgressView::Pending(scan@),
            ScanProgress::Done(Ok(report)) => ScanProgressView::Done(Ok(report@)),
            ScanProgress::Done(Err(error)) => ScanProgressView::Done(Err(*error)),
        }
    }
}

impl Scan {
    /// A scan for all humans, or for all droids.
    pub fn begin(want_human: bool) -> (scan: Scan)
        ensures
            scan@ == (ScanView::Listing { want_human }),
    {
        Scan { stage: Stage::Listing, want_human }
    }

    /// The call to make on the store; its answer goes to `advance`.
    pub fn request(&self) -> (request: Request)
        ensures
            request@ == self@.request(),
    {
        match &self.stage {
            Stage::Listing => {
                proof {
                    reveal_strlit("*");
                }
                let pattern = String::from_str("*");
                assert(pattern@ =~= seq!['*']);
                Request::ListKeys(pattern)
            },
            Stage::Fetching(keys) => {
                Request::GetValues(keys.clone())
            },
        }
    }

    /// Takes the store's answer to the pending request.
    pub fn advance(self, reply: Reply) -> (progress: ScanProgress)
        ensures
            progress@ == self@.advance(reply@),
    {
        let want_human = self.want_human;
        match (self.stage, reply) {
            (Stage::Listing, Reply::Keys(keys)) => {
                if keys.len() == 0 {
                    ScanProgress::Done(Ok(collect(Vec::new(), want_human)))
                } else {
                    ScanProgress::Pending(Scan { stage: Stage::Fetching(keys), want_human })
                }
            },
            (Stage::Fetching(keys), Reply::Values(values)) => {
                if values.len() == keys.len() {
                    ScanProgress::Done(Ok(collect(values, want_human)))
                } else {
                    ScanProgress::Done(Err(QueryError::StoreUnavailable))
                }
            },
            _ => ScanProgress::Done(Err(QueryError::StoreUnavailable)),
        }
    }
}

/// A scan makes at most two calls, and it never asks for the values under no
/// keys: what follows the listing is the fetch of all the keys listed, and
/// there is at least one of them.
pub proof fn scan_ends_after_two_calls(scan: ScanView, first: ReplyView, second: ReplyView)
    ensures
        scan.advance(first) matches ScanProgressView::Pending(next) ==> {
            &&& scan is Listing
            &&& first matches ReplyView::Keys(keys) && keys.len() > 0 && next
                == (ScanView::Fetching { keys, want_human: scan.want_human() })
            &&& next.advance(second) is Done
        },
{
}

/// A value that is no record does not keep the records of the wanted kind
/// from being reported: whatever the values, the scan that fetched one for
/// each key ends well, and what it reports is longer by neither the broken
/// nor the missing values.
pub proof fn broken_values_do_not_end_a_scan(scan: ScanView, values: Seq<FetchedView>)
    requires
        scan matches ScanView::Fetching { keys, .. } && keys.len() == values.len(),
    ensures
        scan.advance(ReplyView::Values(values)) == ScanProgressView::Done(
            Ok(report_of(values, scan.want_human())),
        ),
        report_of(values, scan.want_human()).records.len() + report_of(
            values,
            scan.want_human(),
        ).decode_failures <= values.len(),
{
    counts_fit(values, scan.want_human());
}

/// The records kept and the values counted as broken are different values.
proof fn counts_fit(values: Seq<FetchedView>, want_human: bool)
    ensures
        report_of(values, want_human).records.len() + report_of(values, want_human).decode_failures
            <= values.len(),
    decreases values.len(),
{
    reveal(Seq::filter);
    if values.len() > 0 {
        counts_fit(values.drop_last(), want_human);
    }
}

} // verus!
