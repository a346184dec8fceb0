//! Finding one character by a pattern over the store's keys.
//!
//! A lookup lists the keys that match its pattern, fetches the value under the
//! one key that matched and ends with the record. The two calls are not
//! atomic, so a key that was listed may have no value when it is fetched;
//! that ends the lookup with `RaceLost`, apart from `NotFound`.
//!
//! A pattern that matches more than one key ends the lookup with `Ambiguous`:
//! no key is picked among several.

use crate::decimal::{decimal, decimal_text};
use crate::error::QueryError;
use crate::models::{CharacterRecord, StarWarsChar};
use crate::store::{FetchedView, Fetched, Reply, ReplyView, Request, RequestView};
use vstd::prelude::*;

verus! {

#[derive(Debug)]
enum Stage {
    Listing(String),
    Fetching(String),
}

/// A lookup that waits for the store's answer to its pending request.
#[derive(Debug)]
pub struct Lookup {
    stage: Stage,
}

/// A lookup as plain values.
pub ghost enum LookupView {
    /// The keys that match the pattern are being listed.
    Listing(Seq<char>),
    /// The value under the key is being fetched.
    Fetching(Seq<char>),
}

/// Where a lookup stands after an answer.
#[derive(Debug)]
pub enum Progress {
    /// The lookup has another request to make.
    Pending(Lookup),
    /// The lookup has ended.
    Done(Result<StarWarsChar, QueryError>),
}

/// The progress of a lookup as plain values.
pub ghost enum ProgressView {
    Pending(LookupView),
    Done(Result<CharacterRecord, QueryError>),
}

/// The pattern that matches every key beginning with `prefix`.
pub open spec fn prefix_pattern(prefix: Seq<char>) -> Seq<char> {
    prefix.push('*')
}

impl LookupView {
    /// The call that the lookup waits for.
    pub open spec fn request(self) -> RequestView {
        match self {
            LookupView::Listing(pattern) => RequestView::ListKeys(pattern),
            LookupView::Fetching(key) => RequestView::GetValue(key),
        }
    }

    /// Where the lookup stands after `reply`.
    ///
    /// A listing of no key ends it with `NotFound`, of several keys with
    /// `Ambiguous`; the one key of a listing is fetched next. A key without a
    /// value ends it with `RaceLost`, a value that is no record with
    /// `DecodeError`. A store that could not be reached, or an answer to
    /// another call than the pending one, ends it with `StoreUnavailable`.
    pub open spec fn advance(self, reply: ReplyView) -> ProgressView {
        match (self, reply) {
            (LookupView::Listing(_), ReplyView::Keys(keys)) => {
                if keys.len() == 0 {
                    ProgressView::Done(Err(QueryError::NotFound))
                } else if keys.len() == 1 {
                    ProgressView::Pending(LookupView::Fetching(keys[0]))
                } else {
                    ProgressView::Done(Err(QueryError::Ambiguous))
                }
            },
            (LookupView::Fetching(_), ReplyView::Value(FetchedView::Absent)) => ProgressView::Done(
                Err(QueryError::RaceLost),
            ),
            (
                LookupView::Fetching(_),
                ReplyView::Value(FetchedView::Malformed),
            ) => ProgressView::Done(Err(QueryError::DecodeError)),
            (
                LookupView::Fetching(_),
                ReplyView::Value(FetchedView::Record(record)),
            ) => ProgressView::Done(Ok(record)),
            _ => ProgressView::Done(Err(QueryError::StoreUnavailable)),
        }
    }
}

impl View for Lookup {
    type V = LookupView;

    closed spec fn view(&self) -> LookupView {
        match self.stage {
            Stage::Listing(pattern) => LookupView::Listing(pattern@),
            Stage::Fetching(key) => LookupView::Fetching(key@),
        }
    }
}

impl View for Progress {
    type V = ProgressView;

    open spec fn view(&self) -> ProgressView {
        match self {
            Progress::Pending(lookup) => ProgressView::Pending(lookup@),
            Progress::Done(Ok(record)) => ProgressView::Done(Ok(record@)),
            Progress::Done(Err(error)) => ProgressView::Done(Err(*error)),
        }
    }
}

impl Lookup {
    /// A lookup of the one key that matches `pattern`.
    pub fn by_pattern(pattern: String) -> (lookup: Lookup)
        ensures
            lookup@ == LookupView::Listing(pattern@),
    {
        Lookup { stage: Stage::Listing(pattern) }
    }

    /// A lookup of the one key that begins with `prefix`.
    pub fn by_prefix(prefix: &str) -> (lookup: Lookup)
        ensures
            lookup@ == LookupView::Listing(prefix_pattern(prefix@)),
    {
        proof {
            reveal_strlit("*");
        }
        let pattern = String::from_str(prefix).concat("*");
        assert(pattern@ =~= prefix_pattern(prefix@));
        Lookup { stage: Stage::Listing(pattern) }
    }

    /// A lookup of the friend with the identifier `id`: of the one key that
    /// begins with `id` in decimal.
    pub fn of_friend(id: usize) -> (lookup: Lookup)
        ensures
            lookup@ == LookupView::Listing(prefix_pattern(decimal_text(id as nat))),
    {
        let prefix = decimal(id);
        Lookup::by_prefix(prefix.as_str())
    }

    /// The call to make on the store; its answer goes to `advance`.
    pub fn request(&self) -> (request: Request)
        ensures
            request@ == self@.request(),
    {
        match &self.stage {
            Stage::Listing(pattern) => Request::ListKeys(pattern.clone()),
            Stage::Fetching(key) => Request::GetValue(key.clone()),
        }
    }

    /// Takes the store's answer to the pending request.
    pub fn advance(self, reply: Reply) -> (progress: Progress)
        ensures
            progress@ == self@.advance(reply@),
    {
        match (self.stage, reply) {
            (Stage::Listing(_), Reply::Keys(keys)) => {
                let mut keys = keys;
                if keys.len() == 0 {
                    Progress::Done(Err(QueryError::NotFound))
                } else if keys.len() == 1 {
                    let key = keys.pop().unwrap();
                    Progress::Pending(Lookup { stage: Stage::Fetching(key) })
                } else {
                    Progress::Done(Err(QueryError::Ambiguous))
                }
            },
            (Stage::Fetching(_), Reply::Value(Fetched::Absent)) => Progress::Done(
                Err(QueryError::RaceLost),
            ),
            (Stage::Fetching(_), Reply::Value(Fetched::Malformed)) => Progress::Done(
                Err(QueryError::DecodeError),
            ),
            (Stage::Fetching(_), Reply::Value(Fetched::Record(record))) => Progress::Done(
                Ok(record),
            ),
            _ => Progress::Done(Err(QueryError::StoreUnavailable)),
        }
    }
}

/// A lookup makes at most two calls: what follows a listing is a fetch, and a
/// fetch is followed by nothing.
pub proof fn lookup_ends_after_two_calls(lookup: LookupView, first: ReplyView, second: ReplyView)
    ensures
        lookup.advance(first) matches ProgressView::Pending(next) ==> {
            &&& lookup is Listing
            &&& next is Fetching
            &&& next.advance(second) is Done
        },
{
}

/// The key that is fetched is the one key that the store listed.
pub proof fn only_the_listed_key_is_fetched(lookup: LookupView, reply: ReplyView)
    ensures
        lookup.advance(reply) matches ProgressView::Pending(next) ==> reply == ReplyView::Keys(
            seq![next->Fetching_0],
        ),
{
    if let ProgressView::Pending(next) = lookup.advance(reply) {
        let keys = reply->Keys_0;
        assert(keys =~= seq![next->Fetching_0]);
    }
}

/// A record is had only from a fetch that found one; every other answer ends
/// the lookup with an error or asks for the fetch.
pub proof fn record_comes_from_the_fetch(lookup: LookupView, reply: ReplyView)
    ensures
        lookup.advance(reply) matches ProgressView::Done(Ok(record)) ==> lookup is Fetching
            && reply == ReplyView::Value(FetchedView::Record(record)),
{
}

} // verus!
