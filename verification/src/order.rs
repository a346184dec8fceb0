//! A total order for the records of a listing.
//!
//! A scan gives its records in the order in which the store listed their
//! keys, and the store promises none. Cursors are positions, so a page is
//! only as stable as the sequence under it: ordering the records by id before
//! they are paged makes the pages of two listings agree.

use crate::models::{CharacterRecord, StarWarsChar};
use vstd::prelude::*;

verus! {

/// `a` comes no later than `b`: at the first place where the two texts
/// differ, `a` has the smaller character; or `a` ends there.
pub open spec fn text_le(a: Seq<char>, b: Seq<char>) -> bool
    decreases a.len(),
{
    if a.len() == 0 {
        true
    } else if b.len() == 0 {
        false
    } else if a[0] != b[0] {
        a[0] < b[0]
    } else {
        text_le(a.skip(1), b.skip(1))
    }
}

/// Every text comes no later than itself.
pub proof fn text_le_is_reflexive(a: Seq<char>)
    ensures
        text_le(a, a),
    decreases a.len(),
{
    if a.len() > 0 {
        text_le_is_reflexive(a.skip(1));
    }
}

/// Of two texts one comes no later than the other.
pub proof fn text_le_is_total(a: Seq<char>, b: Seq<char>)
    ensures
        text_le(a, b) || text_le(b, a),
    decreases a.len(),
{
    if a.len() > 0 && b.len() > 0 && a[0] == b[0] {
        text_le_is_total(a.skip(1), b.skip(1));
    }
}

/// What comes no later than a text comes no later than all that the text
/// comes no later than.
pub proof fn text_le_is_transitive(a: Seq<char>, b: Seq<char>, c: Seq<char>)
    requires
        text_le(a, b),
        text_le(b, c),
    ensures
        text_le(a, c),
    decreases a.len(),
{
    if a.len() > 0 && b.len() > 0 && c.len() > 0 && a[0] == b[0] && b[0] == c[0] {
        text_le_is_transitive(a.skip(1), b.skip(1), c.skip(1));
    }
}

/// Two texts that come no later than each other are the same text.
pub proof fn text_le_is_antisymmetric(a: Seq<char>, b: Seq<char>)
    requires
        text_le(a, b),
        text_le(b, a),
    ensures
        a == b,
    decreases a.len(),
{
    if a.len() > 0 && b.len() > 0 {
        text_le_is_antisymmetric(a.skip(1), b.skip(1));
        assert(a =~= seq![a[0]] + a.skip(1));
        assert(b =~= seq![b[0]] + b.skip(1));
    } else {
        assert(a =~= b);
    }
}

/// The ids of the records never go down.
pub open spec fn ordered_by_id(records: Seq<CharacterRecord>) -> bool {
    forall|i: int, j: int| 0 <= i <= j < records.len() ==> text_le(records[i].id, records[j].id)
}

/// Whether a record has the id `id`, as a function of the record.
pub open spec fn has_id(id: Seq<char>) -> spec_fn(CharacterRecord) -> bool {
    |record: CharacterRecord| record.id == id
}

/// Whether `a` comes no later than `b`.
fn comes_no_later(a: &str, b: &str) -> (no_later: bool)
    ensures
        no_later == text_le(a@, b@),
{
    let a_len: usize = a.unicode_len();
    let b_len: usize = b.unicode_len();
    let mut at: usize = 0;
    assert(a@.skip(0) =~= a@ && b@.skip(0) =~= b@);
    while at < a_len && at < b_len
        invariant
            at <= a_len == a@.len(),
            at <= b_len == b@.len(),
            text_le(a@, b@) == text_le(a@.skip(at as int), b@.skip(at as int)),
        decreases a_len - at,
    {
        let ours: char = a.get_char(at);
        let theirs: char = b.get_char(at);
        proof {
            let rest_a = a@.skip(at as int);
            let rest_b = b@.skip(at as int);
            assert(rest_a[0] == ours && rest_b[0] == theirs);
            assert(rest_a.skip(1) =~= a@.skip(at + 1));
            assert(rest_b.skip(1) =~= b@.skip(at + 1));
        }
        if ours != theirs {
            return ours < theirs;
        }
        at = at + 1;
    }
    at == a_len
}

/// A record of the id is kept exactly where the records hold one.
proof fn kept_where_held(records: Seq<CharacterRecord>, id: Seq<char>)
    ensures
        records.filter(has_id(id)).len() > 0 <==> exists|i: int|
            0 <= i < records.len() && (#[trigger] records[i]).id == id,
    decreases records.len(),
{
    reveal(Seq::filter);
    if records.len() > 0 {
        let shorter = records.drop_last();
        kept_where_held(shorter, id);
        if records.filter(has_id(id)).len() > 0 {
            if records.last().id == id {
                assert(records[records.len() - 1].id == id);
            } else {
                let i = choose|i: int| 0 <= i < shorter.len() && (#[trigger] shorter[i]).id == id;
                assert(records[i].id == id);
            }
        }
        if exists|i: int| 0 <= i < records.len() && (#[trigger] records[i]).id == id {
            let i = choose|i: int| 0 <= i < records.len() && (#[trigger] records[i]).id == id;
            if i < shorter.len() {
                assert(shorter[i].id == id);
            }
        }
    }
}

/// There is one way only to order records by id and keep the records of
/// each id in their order: two sequences that are both ordered by id, and
/// that hold for each id the same records in the same order, are the same
/// sequence.
pub proof fn ordering_is_unique(one: Seq<CharacterRecord>, other: Seq<CharacterRecord>)
    requires
        ordered_by_id(one),
        ordered_by_id(other),
        forall|id: Seq<char>|
            #![trigger has_id(id)]
            one.filter(has_id(id)) == other.filter(has_id(id)),
    ensures
        one == other,
    decreases one.len(),
{
    if one.len() == 0 {
        if other.len() > 0 {
            let id = other[0].id;
            kept_where_held(other, id);
            kept_where_held(one, id);
            assert(one.filter(has_id(id)) == other.filter(has_id(id)));
        }
        assert(one =~= other);
    } else {
        let last = one.last();
        let id = last.id;
        kept_where_held(one, id);
        kept_where_held(other, id);
        assert(one[one.len() - 1].id == id);
        assert(one.filter(has_id(id)) == other.filter(has_id(id)));
        let held = choose|i: int| 0 <= i < other.len() && (#[trigger] other[i]).id == id;
        let their_id = other.last().id;
        kept_where_held(other, their_id);
        kept_where_held(one, their_id);
        assert(other[other.len() - 1].id == their_id);
        assert(one.filter(has_id(their_id)) == other.filter(has_id(their_id)));
        let ours = choose|i: int| 0 <= i < one.len() && (#[trigger] one[i]).id == their_id;
        assert(text_le(other[held].id, other[other.len() - 1].id));
        assert(text_le(one[ours].id, one[one.len() - 1].id));
        text_le_is_antisymmetric(id, their_id);
        let shorter = one.drop_last();
        let their_shorter = other.drop_last();
        assert forall|any: Seq<char>| #![trigger has_id(any)]
            shorter.filter(has_id(any)) == their_shorter.filter(has_id(any)) by {
            reveal(Seq::filter);
            assert(one.filter(has_id(any)) == other.filter(has_id(any)));
            if any == id {
                let kept = one.filter(has_id(any));
                assert(kept == shorter.filter(has_id(any)).push(last));
                assert(kept == their_shorter.filter(has_id(any)).push(other.last()));
                assert(kept.drop_last() =~= shorter.filter(has_id(any)));
                assert(kept.drop_last() =~= their_shorter.filter(has_id(any)));
            }
        }
        assert(last == other.last()) by {
            reveal(Seq::filter);
            let kept = one.filter(has_id(id));
            assert(kept == shorter.filter(has_id(id)).push(last));
            assert(kept == their_shorter.filter(has_id(id)).push(other.last()));
            assert(kept.last() == last);
            assert(kept.last() == other.last());
        }
        assert forall|i: int, j: int| 0 <= i <= j < shorter.len() implies text_le(
            shorter[i].id,
            shorter[j].id,
        ) by {
            assert(shorter[i] == one[i] && shorter[j] == one[j]);
        }
        assert forall|i: int, j: int| 0 <= i <= j < their_shorter.len() implies text_le(
            their_shorter[i].id,
            their_shorter[j].id,
        ) by {
            assert(their_shorter[i] == other[i] && their_shorter[j] == other[j]);
        }
        ordering_is_unique(shorter, their_shorter);
        assert(one =~= shorter.push(last));
        assert(other =~= their_shorter.push(other.last()));
    }
}

/// Where no record has the id, none is kept.
proof fn none_with_id(records: Seq<CharacterRecord>, id: Seq<char>)
    requires
        forall|i: int| 0 <= i < records.len() ==> (#[trigger] records[i]).id != id,
    ensures
        records.filter(has_id(id)) == Seq::<CharacterRecord>::empty(),
    decreases records.len(),
{
    reveal(Seq::filter);
    if records.len() > 0 {
        assert forall|i: int| 0 <= i < records.drop_last().len() implies (
        #[trigger] records.drop_last()[i]).id != id by {
            assert(records[i].id != id);
        }
        none_with_id(records.drop_last(), id);
        assert(records.last() == records[records.len() - 1]);
    }
}

/// Putting `record` behind every record that comes no later than it keeps,
/// for each id, the records of that id in their order, with `record` last
/// among those of its own id.
proof fn insertion_keeps_each_id(
    ordered: Seq<CharacterRecord>,
    at: int,
    record: CharacterRecord,
    id: Seq<char>,
)
    requires
        0 <= at <= ordered.len(),
        forall|i: int| at <= i < ordered.len() ==> (#[trigger] ordered[i]).id != record.id,
    ensures
        ordered.insert(at, record).filter(has_id(id)) == if record.id == id {
            ordered.filter(has_id(id)).push(record)
        } else {
            ordered.filter(has_id(id))
        },
{
    let keep = has_id(id);
    let front = ordered.subrange(0, at);
    let back = ordered.subrange(at, ordered.len() as int);
    assert(ordered =~= front + back);
    Seq::filter_distributes_over_add(front, back, keep);
    Seq::filter_distributes_over_add(front.push(record), back, keep);
    assert(front.push(record).drop_last() =~= front);
    assert(front.push(record).filter(keep) == if keep(record) {
        front.filter(keep).push(record)
    } else {
        front.filter(keep)
    }) by {
        reveal(Seq::filter);
    }
    if record.id == id {
        assert forall|i: int| 0 <= i < back.len() implies (#[trigger] back[i]).id != id by {
            assert(ordered[at + i].id != record.id);
        }
        none_with_id(back, id);
        assert(front.filter(keep).push(record) + back.filter(keep) =~= (front.filter(keep)
            + back.filter(keep)).push(record));
    }
}

/// Orders the records by id. Records of the same id keep their order.
///
/// The ids of the result never go down, and for each id the result holds the
/// records of that id that `records` holds, in the same order.
pub fn order_by_id(records: Vec<StarWarsChar>) -> (ordered: Vec<StarWarsChar>)
    ensures
        ordered_by_id(ordered.deep_view()),
        forall|id: Seq<char>|
            #![trigger has_id(id)]
            ordered.deep_view().filter(has_id(id)) == records.deep_view().filter(has_id(id)),
        ordered@.len() == records@.len(),
{
    let ghost all = records.deep_view();
    let total: usize = records.len();
    let mut ordered: Vec<StarWarsChar> = Vec::new();
    proof {
        reveal(Seq::filter);
        assert(all.take(0) =~= Seq::<CharacterRecord>::empty());
        assert(ordered.deep_view() =~= Seq::<CharacterRecord>::empty());
    }
    for record in it: records.into_iter()
        invariant
            all.len() == it.seq().len() == total,
            forall|i: int| 0 <= i < all.len() ==> all[i] == (#[trigger] it.seq()[i])@,
            ordered@.len() == it.index(),
            ordered_by_id(ordered.deep_view()),
            forall|id: Seq<char>|
                #![trigger has_id(id)]
                ordered.deep_view().filter(has_id(id)) == all.take(it.index() as int).filter(
                    has_id(id),
                ),
    {
        let ghost done = it.index() as int;
        let ghost before = ordered.deep_view();
        let mut at: usize = 0;
        while at < ordered.len() && comes_no_later(ordered[at].id.as_str(), record.id.as_str())
            invariant
                at <= ordered@.len(),
                before == ordered.deep_view(),
                forall|i: int| 0 <= i < at ==> text_le((#[trigger] before[i]).id, record@.id),
            decreases ordered@.len() - at,
        {
            at = at + 1;
        }
        proof {
            assert forall|i: int| at <= i < before.len() implies !text_le(
                (#[trigger] before[i]).id,
                record@.id,
            ) by {
                if text_le(before[i].id, record@.id) {
                    text_le_is_transitive(before[at as int].id, before[i].id, record@.id);
                }
            }
            assert forall|i: int| at <= i < before.len() implies (#[trigger] before[i]).id
                != record@.id by {
                text_le_is_reflexive(record@.id);
            }
            assert forall|i: int| at <= i < before.len() implies text_le(
                record@.id,
                (#[trigger] before[i]).id,
            ) by {
                text_le_is_total(record@.id, before[i].id);
            }
            assert(all.take(done + 1).drop_last() =~= all.take(done));
            assert(all.take(done + 1).last() == record@);
            assert forall|id: Seq<char>| #![trigger has_id(id)]
                before.insert(at as int, record@).filter(has_id(id)) == all.take(done + 1).filter(
                    has_id(id),
                ) by {
                insertion_keeps_each_id(before, at as int, record@, id);
                reveal(Seq::filter);
                assert(before.filter(has_id(id)) == all.take(done).filter(has_id(id)));
            }
        }
        ordered.insert(at, record);
        proof {
            let after = ordered.deep_view();
            assert(after =~= before.insert(at as int, record@));
            assert forall|i: int, j: int| 0 <= i <= j < after.len() implies text_le(
                after[i].id,
                after[j].id,
            ) by {
                text_le_is_reflexive(record@.id);
                if i < at && j > at {
                    assert(after[i] == before[i] && after[j] == before[j - 1]);
                } else if i > at {
                    assert(after[i] == before[i - 1] && after[j] == before[j - 1]);
                } else if j < at {
                    assert(after[i] == before[i] && after[j] == before[j]);
                }
            }
        }
    }
    proof {
        assert(all.take(all.len() as int) =~= all);
    }
    ordered
}

} // verus!
