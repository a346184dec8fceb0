//! The entry points of the query layer.

use crate::connection::{
    arguments_accepted, arguments_read, page_of, query_characters, window, Connection, Page,
};
use crate::error::QueryError;
use crate::lookup::{prefix_pattern, Lookup, LookupView};
use crate::models::{CharacterRecord, Droid, Episode, Human, StarWarsChar};
use crate::order::{has_id, ordered_by_id, ordering_is_unique};
use vstd::prelude::*;

verus! {

/// The root of all queries.
#[derive(Clone, Copy, Debug, Default)]
pub struct QueryRoot;

/// The pattern of the key under which the hero of an episode is kept: Luke
/// for the second film and for the saga as a whole, Artoo for the other
/// films.
pub open spec fn hero_pattern(episode: Option<Episode>) -> Seq<char> {
    match episode {
        Some(Episode::NewHope) | Some(Episode::Jedi) => "*artoo"@,
        Some(Episode::Empire) | None => "*luke"@,
    }
}

/// Whether a record is of the wanted kind, as a function of the record.
pub open spec fn of_kind(want_human: bool) -> spec_fn(CharacterRecord) -> bool {
    |record: CharacterRecord| record.is_human == want_human
}

/// What a listing of one kind gives: the page that the arguments select out
/// of the records of that kind, in their order; or `InvalidArgument` where
/// `first` or `last` is negative or a cursor's text stands for no index.
pub open spec fn listed(
    characters: Seq<CharacterRecord>,
    want_human: bool,
    after: Option<Seq<char>>,
    before: Option<Seq<char>>,
    first: Option<i32>,
    last: Option<i32>,
) -> Result<Page<CharacterRecord>, QueryError> {
    if arguments_accepted(after, before, first, last) {
        let kept = characters.filter(of_kind(want_human));
        Ok(page_of(kept, window(kept.len(), arguments_read(after, before, first, last))))
    } else {
        Err(QueryError::InvalidArgument)
    }
}

/// A listing as plain values.
pub open spec fn listing_view<T: DeepView>(listing: Result<Connection<T>, QueryError>) -> Result<
    Page<T::V>,
    QueryError,
> {
    match listing {
        Ok(page) => Ok(page.deep_view()),
        Err(error) => Err(error),
    }
}

/// The records of the wanted kind among `characters`, in their order.
fn keep_kind(characters: &[StarWarsChar], want_human: bool) -> (kept: Vec<StarWarsChar>)
    ensures
        kept.deep_view() == characters.deep_view().filter(of_kind(want_human)),
        forall|i: int| 0 <= i < kept@.len() ==> (#[trigger] kept@[i])@.is_human == want_human,
{
    let ghost all = characters.deep_view();
    let mut kept: Vec<StarWarsChar> = Vec::new();
    let mut at: usize = 0;
    while at < characters.len()
        invariant
            at <= characters@.len(),
            all == characters.deep_view(),
            kept.deep_view() == all.take(at as int).filter(of_kind(want_human)),
            forall|i: int| 0 <= i < kept@.len() ==> (#[trigger] kept@[i])@.is_human == want_human,
        decreases characters@.len() - at,
    {
        proof {
            reveal(Seq::filter);
            let longer = all.take(at + 1);
            assert(longer.drop_last() =~= all.take(at as int));
            assert(longer.filter(of_kind(want_human)) == if of_kind(want_human)(longer.last()) {
                longer.drop_last().filter(of_kind(want_human)).push(longer.last())
            } else {
                longer.drop_last().filter(of_kind(want_human))
            });
        }
        if characters[at].is_human == want_human {
            kept.push(characters[at].clone());
        }
        at = at + 1;
    }
    proof {
        reveal(Seq::filter);
        assert(all.take(all.len() as int) =~= all);
    }
    kept
}

impl QueryRoot {
    /// Begins the lookup of the hero: of the whole saga where `episode` is
    /// omitted, of that episode where it is given.
    pub fn hero(&self, episode: Option<Episode>) -> (lookup: Lookup)
        ensures
            lookup@ == LookupView::Listing(hero_pattern(episode)),
    {
        match episode {
            Some(Episode::NewHope) | Some(Episode::Jedi) => Lookup::by_pattern(
                String::from_str("*artoo"),
            ),
            Some(Episode::Empire) | None => Lookup::by_pattern(String::from_str("*luke")),
        }
    }

    /// Begins the lookup of the character whose key begins with `id`, to be
    /// shown as a human: `Human::new` shows the record found where it is one.
    pub fn human(&self, id: String) -> (lookup: Lookup)
        ensures
            lookup@ == LookupView::Listing(prefix_pattern(id@)),
    {
        Lookup::by_prefix(id.as_str())
    }

    /// Begins the lookup of the character whose key begins with `id`, to be
    /// shown as a droid: `Droid::new` shows the record found where it is one.
    pub fn droid(&self, id: String) -> (lookup: Lookup)
        ensures
            lookup@ == LookupView::Listing(prefix_pattern(id@)),
    {
        Lookup::by_prefix(id.as_str())
    }

    /// The page of the humans among `characters` that the arguments select.
    pub fn humans(
        &self,
        characters: &[StarWarsChar],
        after: Option<String>,
        before: Option<String>,
        first: Option<i32>,
        last: Option<i32>,
    ) -> (listing: Result<Connection<Human>, QueryError>)
        ensures
            listing_view(listing) == listed(
                characters.deep_view(),
                true,
                after.deep_view(),
                before.deep_view(),
                first,
                last,
            ),
    {
        let kept = keep_kind(characters, true);
        let show = |record: &StarWarsChar| -> (human: Human)
            requires
                record@.is_human,
            ensures
                human@ == record@,
            { Human::of_record(record.clone()) };
        let listing = query_characters(after, before, first, last, kept.as_slice(), show);
        proof {
            if let Ok(page) = &listing {
                let shown = window(
                    kept@.len(),
                    arguments_read(after.deep_view(), before.deep_view(), first, last),
                );
                assert(page.deep_view().edges =~= page_of(kept.deep_view(), shown).edges);
            }
        }
        listing
    }

    /// The page of the droids among `characters` that the arguments select.
    pub fn droids(
        &self,
        characters: &[StarWarsChar],
        after: Option<String>,
        before: Option<String>,
        first: Option<i32>,
        last: Option<i32>,
    ) -> (listing: Result<Connection<Droid>, QueryError>)
        ensures
            listing_view(listing) == listed(
                characters.deep_view(),
                false,
                after.deep_view(),
                before.deep_view(),
                first,
                last,
            ),
    {
        let kept = keep_kind(characters, false);
        let show = |record: &StarWarsChar| -> (droid: Droid)
            requires
                !record@.is_human,
            ensures
                droid@ == record@,
            { Droid::of_record(record.clone()) };
        let listing = query_characters(after, before, first, last, kept.as_slice(), show);
        proof {
            if let Ok(page) = &listing {
                let shown = window(
                    kept@.len(),
                    arguments_read(after.deep_view(), before.deep_view(), first, last),
                );
                assert(page.deep_view().edges =~= page_of(kept.deep_view(), shown).edges);
            }
        }
        listing
    }
}

/// Listing twice over the same records with the same arguments gives the
/// same page or the same error.
pub proof fn listing_twice_agrees<T: DeepView<V = CharacterRecord>>(
    characters: Seq<CharacterRecord>,
    want_human: bool,
    after: Option<Seq<char>>,
    before: Option<Seq<char>>,
    first: Option<i32>,
    last: Option<i32>,
    one: Result<Connection<T>, QueryError>,
    other: Result<Connection<T>, QueryError>,
)
    requires
        listing_view(one) == listed(characters, want_human, after, before, first, last),
        listing_view(other) == listed(characters, want_human, after, before, first, last),
    ensures
        listing_view(one) == listing_view(other),
{
}

/// Listings agree whatever the order in which the store listed the keys,
/// once the records are ordered by id: where two scans hold for each id the
/// same records in the same order, the listings over their ordered records
/// are the same.
pub proof fn listings_agree_once_ordered(
    one: Seq<CharacterRecord>,
    ordered_one: Seq<CharacterRecord>,
    other: Seq<CharacterRecord>,
    ordered_other: Seq<CharacterRecord>,
    want_human: bool,
    after: Option<Seq<char>>,
    before: Option<Seq<char>>,
    first: Option<i32>,
    last: Option<i32>,
)
    requires
        ordered_by_id(ordered_one),
        ordered_by_id(ordered_other),
        forall|id: Seq<char>|
            #![trigger has_id(id)]
            ordered_one.filter(has_id(id)) == one.filter(has_id(id)),
        forall|id: Seq<char>|
            #![trigger has_id(id)]
            ordered_other.filter(has_id(id)) == other.filter(has_id(id)),
        forall|id: Seq<char>|
            #![trigger has_id(id)]
            one.filter(has_id(id)) == other.filter(has_id(id)),
    ensures
        listed(ordered_one, want_human, after, before, first, last) == listed(
            ordered_other,
            want_human,
            after,
            before,
            first,
            last,
        ),
{
    ordering_is_unique(ordered_one, ordered_other);
}

} // verus!
