//! What is asked of the key-value store and what it answers.
//!
//! The store lists the keys that match a glob pattern, gives the value under
//! one key and gives the values under several keys at once. Nothing ties one
//! answer to the next: a key that was listed may be gone when it is fetched.

use crate::models::{CharacterRecord, StarWarsChar};
use vstd::prelude::*;

verus! {

/// What the store held under one key, after decoding.
#[derive(Debug, PartialEq, Eq)]
pub enum Fetched {
    /// The key has no value.
    Absent,
    /// The value is not a character record.
    Malformed,
    /// The value, decoded.
    Record(StarWarsChar),
}

/// A fetched value as plain values.
pub ghost enum FetchedView {
    Absent,
    Malformed,
    Record(CharacterRecord),
}

impl View for Fetched {
    type V = FetchedView;

    open spec fn view(&self) -> FetchedView {
        match self {
            Fetched::Absent => FetchedView::Absent,
            Fetched::Malformed => FetchedView::Malformed,
            Fetched::Record(record) => FetchedView::Record(record@),
        }
    }
}

impl DeepView for Fetched {
    type V = FetchedView;

    open spec fn deep_view(&self) -> FetchedView {
        self@
    }
}

/// One call on the store.
#[derive(Debug, PartialEq, Eq)]
pub enum Request {
    /// List the keys that match the pattern.
    ListKeys(String),
    /// Fetch and decode the value under the key.
    GetValue(String),
    /// Fetch and decode the values under the keys, in their order.
    GetValues(Vec<String>),
}

/// A call as plain values.
pub ghost enum RequestView {
    ListKeys(Seq<char>),
    GetValue(Seq<char>),
    GetValues(Seq<Seq<char>>),
}

impl View for Request {
    type V = RequestView;

    open spec fn view(&self) -> RequestView {
        match self {
            Request::ListKeys(pattern) => RequestView::ListKeys(pattern@),
            Request::GetValue(key) => RequestView::GetValue(key@),
            Request::GetValues(keys) => RequestView::GetValues(keys.deep_view()),
        }
    }
}

/// The store's answer to one call.
#[derive(Debug, PartialEq, Eq)]
pub enum Reply {
    /// The keys that matched, in no particular order.
    Keys(Vec<String>),
    /// What was under the key.
    Value(Fetched),
    /// What was under each key.
    Values(Vec<Fetched>),
    /// The store could not be reached.
    Unavailable,
}

/// An answer as plain values.
pub ghost enum ReplyView {
    Keys(Seq<Seq<char>>),
    Value(FetchedView),
    Values(Seq<FetchedView>),
    Unavailable,
}

impl View for Reply {
    type V = ReplyView;

    open spec fn view(&self) -> ReplyView {
        match self {
            Reply::Keys(keys) => ReplyView::Keys(keys.deep_view()),
            Reply::Value(fetched) => ReplyView::Value(fetched@),
            Reply::Values(fetched) => ReplyView::Values(fetched.deep_view()),
            Reply::Unavailable => ReplyView::Unavailable,
        }
    }
}

} // verus!
