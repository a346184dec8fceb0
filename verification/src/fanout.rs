//! Resolving the friends of one character.
//!
//! Each distinct friend is looked up once, however often it is named, and at
//! most `MAX_IN_FLIGHT` lookups run at a time. The outcomes are kept by slot,
//! so the order in which the lookups end does not matter: the friends come
//! out in the order in which they were named.
//!
//! A friend that cannot be resolved fails the whole call: no entry is left
//! out. The error is that of the first such friend in the order named.

use crate::decimal::decimal_text;
use crate::error::QueryError;
use crate::lookup::{prefix_pattern, Lookup, LookupView};
use crate::models::{classify, Character, CharacterRecord, CharacterView, StarWarsChar};
use vstd::prelude::*;

verus! {

/// The largest number of lookups that run at the same time.
pub const MAX_IN_FLIGHT: usize = 8;

#[derive(Debug)]
enum Slot {
    Waiting,
    Running,
    Done(Result<StarWarsChar, QueryError>),
}

/// The state of the lookup of one distinct friend.
pub ghost enum SlotView {
    /// The lookup has not been handed out.
    Waiting,
    /// The lookup has been handed out and has not ended.
    Running,
    /// The lookup has ended.
    Done(Result<CharacterRecord, QueryError>),
}

impl View for Slot {
    type V = SlotView;

    closed spec fn view(&self) -> SlotView {
        match self {
            Slot::Waiting => SlotView::Waiting,
            Slot::Running => SlotView::Running,
            Slot::Done(Ok(record)) => SlotView::Done(Ok(record@)),
            Slot::Done(Err(error)) => SlotView::Done(Err(*error)),
        }
    }
}

impl DeepView for Slot {
    type V = SlotView;

    closed spec fn deep_view(&self) -> SlotView {
        self@
    }
}

/// The identifiers of `ids` without repetition, each where it first occurs.
pub open spec fn distinct(ids: Seq<usize>) -> Seq<usize>
    decreases ids.len(),
{
    if ids.len() == 0 {
        Seq::empty()
    } else {
        let earlier = distinct(ids.drop_last());
        if earlier.contains(ids.last()) {
            earlier
        } else {
            earlier.push(ids.last())
        }
    }
}

/// How many of the slots are running.
pub open spec fn running(slots: Seq<SlotView>) -> nat
    decreases slots.len(),
{
    if slots.len() == 0 {
        0
    } else {
        running(slots.drop_last()) + if slots.last() is Running {
            1nat
        } else {
            0nat
        }
    }
}

/// The friends of one character while they are being resolved.
pub ghost struct FanoutView {
    /// The identifiers as they were named.
    pub ids: Seq<usize>,
    /// How many lookups have been handed out.
    pub launched: nat,
    /// One slot for each distinct identifier, in the order of `distinct(ids)`.
    pub slots: Seq<SlotView>,
}

impl FanoutView {
    /// The distinct identifiers; the slot at an index belongs to the
    /// identifier at that index.
    pub open spec fn plan(self) -> Seq<usize> {
        distinct(self.ids)
    }

    /// How many lookups are running.
    pub open spec fn in_flight(self) -> nat {
        running(self.slots)
    }

    /// What holds of every fan-out: there is one slot for each distinct
    /// identifier; the lookups are handed out in the order of the slots; and
    /// no more than `MAX_IN_FLIGHT` of them run.
    pub open spec fn wf(self) -> bool {
        &&& self.slots.len() == self.plan().len()
        &&& self.launched <= self.slots.len()
        &&& forall|i: int| 0 <= i < self.launched ==> !((#[trigger] self.slots[i]) is Waiting)
        &&& forall|i: int|
            self.launched <= i < self.slots.len() ==> (#[trigger] self.slots[i]) is Waiting
        &&& self.in_flight() <= MAX_IN_FLIGHT
    }

    /// A lookup can be handed out: one is waiting and fewer than
    /// `MAX_IN_FLIGHT` run.
    pub open spec fn can_launch(self) -> bool {
        self.launched < self.slots.len() && self.in_flight() < MAX_IN_FLIGHT
    }

    /// Every lookup has ended.
    pub open spec fn finished(self) -> bool {
        forall|i: int| 0 <= i < self.slots.len() ==> (#[trigger] self.slots[i]) is Done
    }

    /// The fan-out after the next lookup was handed out.
    pub open spec fn launch(self) -> FanoutView {
        FanoutView {
            ids: self.ids,
            launched: self.launched + 1,
            slots: self.slots.update(self.launched as int, SlotView::Running),
        }
    }

    /// The fan-out after the lookup of `slot` ended with `outcome`. An
    /// outcome for a slot that is not running changes nothing.
    pub open spec fn complete(
        self,
        slot: int,
        outcome: Result<CharacterRecord, QueryError>,
    ) -> FanoutView {
        if 0 <= slot < self.slots.len() && self.slots[slot] is Running {
            FanoutView {
                ids: self.ids,
                launched: self.launched,
                slots: self.slots.update(slot, SlotView::Done(outcome)),
            }
        } else {
            self
        }
    }

    /// The slot of the friend named at `position`.
    pub open spec fn slot_at(self, position: int) -> int {
        self.plan().index_of(self.ids[position])
    }

    /// How the lookup of the friend named at `position` ended.
    pub open spec fn outcome(self, position: int) -> Result<CharacterRecord, QueryError> {
        self.slots[self.slot_at(position)]->Done_0
    }

    /// The friend named at `position` is the first that could not be
    /// resolved.
    pub open spec fn fails_first_at(self, position: int) -> bool {
        &&& 0 <= position < self.ids.len()
        &&& self.outcome(position) is Err
        &&& forall|earlier: int| 0 <= earlier < position ==> self.outcome(earlier) is Ok
    }

    /// The friends, once every lookup has ended: one view for each identifier
    /// named, in the order named, or the error of the first friend that could
    /// not be resolved.
    pub open spec fn friends(self) -> Result<Seq<CharacterView>, QueryError> {
        if exists|position: int| self.fails_first_at(position) {
            Err(self.outcome(choose|position: int| self.fails_first_at(position))->Err_0)
        } else {
            Ok(Seq::new(self.ids.len(), |position: int| classify(self.outcome(position)->Ok_0)))
        }
    }
}

/// The distinct identifiers hold no identifier twice, and hold every
/// identifier that was named.
pub proof fn distinct_names_each_once(ids: Seq<usize>)
    ensures
        distinct(ids).no_duplicates(),
        forall|position: int|
            0 <= position < ids.len() ==> distinct(ids).contains(#[trigger] ids[position]),
        forall|slot: int|
            0 <= slot < distinct(ids).len() ==> ids.contains(#[trigger] distinct(ids)[slot]),
    decreases ids.len(),
{
    if ids.len() > 0 {
        let shorter = ids.drop_last();
        let earlier = distinct(shorter);
        distinct_names_each_once(shorter);
        assert forall|position: int| 0 <= position < ids.len() implies distinct(ids).contains(
            #[trigger] ids[position],
        ) by {
            if position < shorter.len() {
                let at = earlier.index_of(shorter[position]);
                assert(distinct(ids)[at] == ids[position]);
            } else if !earlier.contains(ids.last()) {
                assert(distinct(ids)[earlier.len() as int] == ids[position]);
            }
        }
        assert forall|slot: int| 0 <= slot < distinct(ids).len() implies ids.contains(
            #[trigger] distinct(ids)[slot],
        ) by {
            if slot < earlier.len() {
                let at = shorter.index_of(earlier[slot]);
                assert(ids[at] == distinct(ids)[slot]);
            } else {
                assert(ids[ids.len() - 1] == distinct(ids)[slot]);
            }
        }
    }
}

/// Each distinct friend has one slot and is looked up once: no two slots
/// belong to the same identifier, every identifier named has a slot, and
/// there are no more slots than names.
pub proof fn each_friend_is_looked_up_once(state: FanoutView)
    requires
        state.wf(),
    ensures
        forall|one: int, other: int|
            0 <= one < other < state.slots.len() ==> state.plan()[one] != state.plan()[other],
        forall|position: int|
            0 <= position < state.ids.len() ==> {
                &&& 0 <= #[trigger] state.slot_at(position) < state.slots.len()
                &&& state.plan()[state.slot_at(position)] == state.ids[position]
            },
        state.slots.len() <= state.ids.len(),
{
    distinct_names_each_once(state.ids);
    distinct_is_no_longer(state.ids);
}

/// The bound on running lookups holds in every state: handing out a lookup,
/// which happens only below the bound, adds one to those that run, and an
/// outcome takes one away or changes nothing.
pub proof fn steps_keep_the_bound(
    state: FanoutView,
    slot: int,
    outcome: Result<CharacterRecord, QueryError>,
)
    requires
        state.wf(),
    ensures
        state.can_launch() ==> state.launch().wf() && state.launch().in_flight()
            == state.in_flight() + 1,
        state.complete(slot, outcome).wf(),
        state.complete(slot, outcome).in_flight() == if 0 <= slot < state.slots.len()
            && state.slots[slot] is Running {
            state.in_flight() - 1
        } else {
            state.in_flight() as int
        },
{
    if state.can_launch() {
        running_after_update(state.slots, state.launched as int, SlotView::Running);
    }
    if 0 <= slot < state.slots.len() && state.slots[slot] is Running {
        running_after_update(state.slots, slot, SlotView::Done(outcome));
    }
}

/// The outcomes of two lookups may arrive in either order.
pub proof fn outcomes_commute(
    state: FanoutView,
    one: int,
    first: Result<CharacterRecord, QueryError>,
    other: int,
    second: Result<CharacterRecord, QueryError>,
)
    requires
        one != other,
    ensures
        state.complete(one, first).complete(other, second) == state.complete(
            other,
            second,
        ).complete(one, first),
{
    let left = state.complete(one, first).complete(other, second);
    let right = state.complete(other, second).complete(one, first);
    assert(left.slots =~= right.slots);
}

/// The friends mirror the names. Where all lookups ended well, there is one
/// view for each name, in the order named, and it shows the record that the
/// lookup for that name found; a name that occurs twice is shown twice.
/// Where a lookup failed, the call fails with the error of the first name
/// whose lookup failed.
pub proof fn friends_mirror_the_names(state: FanoutView)
    ensures
        state.friends() matches Ok(shown) ==> {
            &&& shown.len() == state.ids.len()
            &&& forall|position: int|
                0 <= position < state.ids.len() ==> {
                    &&& state.outcome(position) is Ok
                    &&& #[trigger] shown[position] == classify(state.outcome(position)->Ok_0)
                }
        },
        state.friends() matches Err(error) ==> exists|position: int|
            state.fails_first_at(position) && state.outcome(position) == Err::<
                CharacterRecord,
                QueryError,
            >(error),
        forall|one: int, other: int|
            0 <= one < state.ids.len() && 0 <= other < state.ids.len() && state.ids[one]
                == state.ids[other] ==> state.outcome(one) == state.outcome(other),
{
    if !exists|position: int| state.fails_first_at(position) {
        assert forall|position: int| 0 <= position < state.ids.len() implies state.outcome(
            position,
        ) is Ok by {
            if state.outcome(position) is Err {
                first_failure_exists(state, position);
            }
        }
    }
}

/// Where the lookup for some name failed, there is a first such name.
proof fn first_failure_exists(state: FanoutView, position: int)
    requires
        0 <= position < state.ids.len(),
        state.outcome(position) is Err,
    ensures
        exists|first: int| state.fails_first_at(first),
    decreases position,
{
    if exists|earlier: int| 0 <= earlier < position && state.outcome(earlier) is Err {
        let earlier = choose|earlier: int| 0 <= earlier < position && state.outcome(earlier) is Err;
        first_failure_exists(state, earlier);
    } else {
        assert(state.fails_first_at(position));
    }
}

/// There are no more distinct identifiers than identifiers.
proof fn distinct_is_no_longer(ids: Seq<usize>)
    ensures
        distinct(ids).len() <= ids.len(),
    decreases ids.len(),
{
    if ids.len() > 0 {
        distinct_is_no_longer(ids.drop_last());
    }
}

/// Changing one slot changes the number of running slots by that slot alone.
proof fn running_after_update(slots: Seq<SlotView>, at: int, slot: SlotView)
    requires
        0 <= at < slots.len(),
    ensures
        running(slots.update(at, slot)) + (if slots[at] is Running {
            1nat
        } else {
            0nat
        }) == running(slots) + (if slot is Running {
            1nat
        } else {
            0nat
        }),
    decreases slots.len(),
{
    let changed = slots.update(at, slot);
    if at == slots.len() - 1 {
        assert(changed.drop_last() =~= slots.drop_last());
    } else {
        running_after_update(slots.drop_last(), at, slot);
        assert(changed.drop_last() =~= slots.drop_last().update(at, slot));
    }
}

/// Where no slot is counted as running, none is.
proof fn none_running(slots: Seq<SlotView>)
    requires
        running(slots) == 0,
    ensures
        forall|i: int| 0 <= i < slots.len() ==> !((#[trigger] slots[i]) is Running),
    decreases slots.len(),
{
    if slots.len() > 0 {
        none_running(slots.drop_last());
        assert forall|i: int| 0 <= i < slots.len() implies !((#[trigger] slots[i]) is Running) by {
            if i < slots.len() - 1 {
                assert(slots.drop_last()[i] == slots[i]);
            }
        }
    }
}

/// Slots that all wait hold none that runs.
proof fn waiting_slots_do_not_run(slots: Seq<SlotView>)
    requires
        forall|i: int| 0 <= i < slots.len() ==> (#[trigger] slots[i]) is Waiting,
    ensures
        running(slots) == 0,
    decreases slots.len(),
{
    if slots.len() > 0 {
        assert forall|i: int| 0 <= i < slots.drop_last().len() implies (
        #[trigger] slots.drop_last()[i]) is Waiting by {
            assert(slots[i] is Waiting);
        }
        waiting_slots_do_not_run(slots.drop_last());
    }
}

/// The friends of one character while they are being resolved.
#[derive(Debug)]
pub struct Fanout {
    ids: Vec<usize>,
    plan: Vec<usize>,
    slot_of: Vec<usize>,
    slots: Vec<Slot>,
    launched: usize,
    running: usize,
}

/// The lookup of one distinct friend, and the slot that its outcome goes to.
#[derive(Debug)]
pub struct Task {
    pub slot: usize,
    pub lookup: Lookup,
}

/// What to do next for a fan-out.
#[derive(Debug)]
pub enum Turn {
    /// Start the lookup of the task; more may be started at once.
    Launch(Fanout, Task),
    /// Wait for one of the running lookups to end.
    Wait(Fanout),
    /// Every lookup has ended.
    Done(Result<Vec<Character>, QueryError>),
}

impl View for Fanout {
    type V = FanoutView;

    closed spec fn view(&self) -> FanoutView {
        FanoutView {
            ids: self.ids@,
            launched: self.launched as nat,
            slots: self.slots.deep_view(),
        }
    }
}

impl Fanout {
    #[verifier::type_invariant]
    spec fn holds_together(self) -> bool {
        &&& self@.wf()
        &&& self.plan@ == distinct(self.ids@)
        &&& self.slot_of@.len() == self.ids@.len()
        &&& forall|position: int|
            0 <= position < self.ids@.len() ==> {
                &&& 0 <= (#[trigger] self.slot_of@[position]) < self.plan@.len()
                &&& self.plan@[self.slot_of@[position] as int] == self.ids@[position]
            }
        &&& self.running == running(self.slots.deep_view())
    }

    /// A fan-out over the friends named by `ids`, with no lookup handed out.
    pub fn new(ids: Vec<usize>) -> (fanout: Fanout)
        ensures
            fanout@.wf(),
            fanout@.ids == ids@,
            fanout@.launched == 0,
            fanout@.in_flight() == 0,
    {
        let mut plan: Vec<usize> = Vec::new();
        let mut slot_of: Vec<usize> = Vec::new();
        let mut slots: Vec<Slot> = Vec::new();
        let mut position: usize = 0;
        while position < ids.len()
            invariant
                position <= ids@.len(),
                plan@ == distinct(ids@.take(position as int)),
                slots@.len() == plan@.len(),
                forall|i: int| 0 <= i < slots@.len() ==> (#[trigger] slots@[i]) is Waiting,
                slot_of@.len() == position,
                forall|i: int|
                    0 <= i < position ==> {
                        &&& 0 <= (#[trigger] slot_of@[i]) < plan@.len()
                        &&& plan@[slot_of@[i] as int] == ids@[i]
                    },
            decreases ids@.len() - position,
        {
            let id: usize = ids[position];
            let ghost earlier = plan@;
            proof {
                assert(ids@.take(position + 1).drop_last() =~= ids@.take(position as int));
            }
            let mut slot: usize = 0;
            while slot < plan.len() && plan[slot] != id
                invariant
                    slot <= plan@.len(),
                    forall|i: int| 0 <= i < slot ==> plan@[i] != id,
                decreases plan@.len() - slot,
            {
                slot = slot + 1;
            }
            if slot == plan.len() {
                plan.push(id);
                slots.push(Slot::Waiting);
            }
            slot_of.push(slot);
            position = position + 1;
        }
        proof {
            assert(ids@.take(ids@.len() as int) =~= ids@);
            assert forall|i: int| 0 <= i < slots.deep_view().len() implies (
            #[trigger] slots.deep_view()[i]) is Waiting by {
                assert(slots@[i] is Waiting);
            }
            waiting_slots_do_not_run(slots.deep_view());
        }
        Fanout { ids, plan, slot_of, slots, launched: 0, running: 0 }
    }

    /// Says what to do next.
    ///
    /// Where a lookup waits and fewer than `MAX_IN_FLIGHT` run, the next
    /// waiting lookup is handed out. Where none can be handed out and some
    /// run, one of them has to end first. Where none runs and none waits,
    /// the friends are given in the order named.
    pub fn poll(self) -> (turn: Turn)
        ensures
            self@.wf(),
            self@.can_launch() ==> (turn matches Turn::Launch(next, task) && {
                &&& next@ == self@.launch()
                &&& next@.wf()
                &&& task.slot == self@.launched
                &&& task.lookup@ == LookupView::Listing(
                    prefix_pattern(decimal_text(self@.plan()[task.slot as int] as nat)),
                )
            }),
            !self@.can_launch() && self@.in_flight() > 0 ==> (turn matches Turn::Wait(next)
                && next@ == self@),
            !self@.can_launch() && self@.in_flight() == 0 ==> (turn matches Turn::Done(friends) && {
                &&& self@.finished()
                &&& friends_view(friends) == self@.friends()
            }),
    {
        proof {
            use_type_invariant(&self);
        }
        if self.launched < self.slots.len() && self.running < MAX_IN_FLIGHT {
            let Fanout { ids, plan, slot_of, slots, launched, running } = self;
            let mut slots = slots;
            let ghost before = slots.deep_view();
            proof {
                running_after_update(before, launched as int, SlotView::Running);
            }
            slots.set(launched, Slot::Running);
            assert(slots.deep_view() =~= before.update(launched as int, SlotView::Running));
            let lookup = Lookup::of_friend(plan[launched]);
            let next = Fanout {
                ids,
                plan,
                slot_of,
                slots,
                launched: launched + 1,
                running: running + 1,
            };
            Turn::Launch(next, Task { slot: launched, lookup })
        } else if self.running > 0 {
            Turn::Wait(self)
        } else {
            proof {
                none_running(self.slots.deep_view());
            }
            Turn::Done(self.gather())
        }
    }

    /// Takes the outcome of the lookup that was handed out for `slot`. An
    /// outcome for a slot whose lookup is not running is dropped.
    pub fn complete(self, slot: usize, outcome: Result<StarWarsChar, QueryError>) -> (next: Fanout)
        ensures
            self@.wf(),
            next@.wf(),
            next@ == self@.complete(slot as int, outcome_view(outcome)),
    {
        proof {
            use_type_invariant(&self);
        }
        let is_running: bool = slot < self.slots.len() && match &self.slots[slot] {
            Slot::Running => true,
            _ => false,
        };
        if !is_running {
            return self;
        }
        let Fanout { ids, plan, slot_of, slots, launched, running } = self;
        let mut slots = slots;
        let ghost before = slots.deep_view();
        let ghost ended = SlotView::Done(outcome_view(outcome));
        proof {
            running_after_update(before, slot as int, ended);
        }
        slots.set(slot, Slot::Done(outcome));
        assert(slots.deep_view() =~= before.update(slot as int, ended));
        Fanout { ids, plan, slot_of, slots, launched, running: running - 1 }
    }

    /// The friends in the order named, where every lookup has ended.
    fn gather(&self) -> (friends: Result<Vec<Character>, QueryError>)
        requires
            self@.finished(),
        ensures
            friends_view(friends) == self@.friends(),
    {
        proof {
            use_type_invariant(self);
            distinct_names_each_once(self.ids@);
        }
        let ghost state = self@;
        let mut friends: Vec<Character> = Vec::new();
        let mut position: usize = 0;
        while position < self.ids.len()
            invariant
                state == self@,
                state.finished(),
                self.holds_together(),
                distinct(self.ids@).no_duplicates(),
                position <= self.ids@.len(),
                friends@.len() == position,
                forall|earlier: int| 0 <= earlier < position ==> state.outcome(earlier) is Ok,
                forall|earlier: int|
                    0 <= earlier < position ==> (#[trigger] friends@[earlier])@ == classify(
                        state.outcome(earlier)->Ok_0,
                    ),
            decreases self.ids@.len() - position,
        {
            let slot: usize = self.slot_of[position];
            proof {
                assert(distinct(self.ids@).contains(self.ids@[position as int]));
                assert(state.slot_at(position as int) == slot);
                assert(state.slots[slot as int] == self.slots@[slot as int]@);
            }
            match &self.slots[slot] {
                Slot::Done(Ok(record)) => {
                    friends.push(Character::from_record(record.clone()));
                },
                Slot::Done(Err(error)) => {
                    assert(state.fails_first_at(position as int));
                    assert forall|other: int| state.fails_first_at(other) implies other
                        == position by {
                        if other > position {
                            assert(state.outcome(position as int) is Ok);
                        }
                    }
                    return Err(*error);
                },
                _ => {
                    assert(false);
                },
            }
            position = position + 1;
        }
        proof {
            assert forall|other: int| !state.fails_first_at(other) by {
                if 0 <= other < self.ids@.len() {
                    assert(state.outcome(other) is Ok);
                }
            }
            assert(friends.deep_view() =~= Seq::new(
                state.ids.len(),
                |position: int| classify(state.outcome(position)->Ok_0),
            ));
        }
        Ok(friends)
    }
}

/// An outcome as plain values.
pub open spec fn outcome_view(outcome: Result<StarWarsChar, QueryError>) -> Result<
    CharacterRecord,
    QueryError,
> {
    match outcome {
        Ok(record) => Ok(record@),
        Err(error) => Err(error),
    }
}

/// The friends, or the error, as plain values.
pub open spec fn friends_view(friends: Result<Vec<Character>, QueryError>) -> Result<
    Seq<CharacterView>,
    QueryError,
> {
    match friends {
        Ok(shown) => Ok(shown.deep_view()),
        Err(error) => Err(error),
    }
}

} // verus!
