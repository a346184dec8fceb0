//! Character records and the two views through which they are shown.

use crate::fanout::Fanout;
use vstd::prelude::*;

verus! {

/// One of the films of the trilogy.
#[derive(Clone, Copy, Debug, PartialEq, Eq, Structural)]
pub enum Episode {
    /// Released in 1977.
    NewHope,
    /// Released in 1980.
    Empire,
    /// Released in 1983.
    Jedi,
}

/// A character as the store holds it.
#[derive(Debug, PartialEq, Eq)]
pub struct StarWarsChar {
    pub id: String,
    pub name: String,
    /// Selects the view: a human where set, a droid where not.
    pub is_human: bool,
    /// The identifiers of the friends, in the order in which they are shown.
    pub friends: Vec<usize>,
    pub appears_in: Vec<Episode>,
    pub home_planet: Option<String>,
    pub primary_function: Option<String>,
}

/// What a character record holds, as plain values.
pub ghost struct CharacterRecord {
    pub id: Seq<char>,
    pub name: Seq<char>,
    pub is_human: bool,
    pub friends: Seq<usize>,
    pub appears_in: Seq<Episode>,
    pub home_planet: Option<Seq<char>>,
    pub primary_function: Option<Seq<char>>,
}

impl View for StarWarsChar {
    type V = CharacterRecord;

    open spec fn view(&self) -> CharacterRecord {
        CharacterRecord {
            id: self.id@,
            name: self.name@,
            is_human: self.is_human,
            friends: self.friends@,
            appears_in: self.appears_in@,
            home_planet: self.home_planet.deep_view(),
            primary_function: self.primary_function.deep_view(),
        }
    }
}

impl DeepView for StarWarsChar {
    type V = CharacterRecord;

    open spec fn deep_view(&self) -> CharacterRecord {
        self@
    }
}

impl Clone for StarWarsChar {
    fn clone(&self) -> (copy: Self)
        ensures
            copy@ == self@,
    {
        StarWarsChar {
            id: self.id.clone(),
            name: self.name.clone(),
            is_human: self.is_human,
            friends: self.friends.clone(),
            appears_in: self.appears_in.clone(),
            home_planet: self.home_planet.clone(),
            primary_function: self.primary_function.clone(),
        }
    }
}

/// A humanoid creature: a record whose discriminator says human.
#[derive(Debug, PartialEq, Eq)]
pub struct Human(StarWarsChar);

/// A mechanical creature: a record whose discriminator says droid.
#[derive(Debug, PartialEq, Eq)]
pub struct Droid(StarWarsChar);

/// A character under the view that its discriminator selects.
#[derive(Debug, PartialEq, Eq)]
pub enum Character {
    Human(Human),
    Droid(Droid),
}

/// A character's record together with the view it is shown under.
pub ghost enum CharacterView {
    Human(CharacterRecord),
    Droid(CharacterRecord),
}

/// The view that the discriminator of `record` selects.
pub open spec fn classify(record: CharacterRecord) -> CharacterView {
    if record.is_human {
        CharacterView::Human(record)
    } else {
        CharacterView::Droid(record)
    }
}

impl CharacterView {
    /// The record under the view.
    pub open spec fn record(self) -> CharacterRecord {
        match self {
            CharacterView::Human(record) => record,
            CharacterView::Droid(record) => record,
        }
    }
}

impl View for Human {
    type V = CharacterRecord;

    closed spec fn view(&self) -> CharacterRecord {
        self.0@
    }
}

impl View for Droid {
    type V = CharacterRecord;

    closed spec fn view(&self) -> CharacterRecord {
        self.0@
    }
}

impl View for Character {
    type V = CharacterView;

    open spec fn view(&self) -> CharacterView {
        match self {
            Character::Human(human) => CharacterView::Human(human@),
            Character::Droid(droid) => CharacterView::Droid(droid@),
        }
    }
}

impl DeepView for Human {
    type V = CharacterRecord;

    open spec fn deep_view(&self) -> CharacterRecord {
        self@
    }
}

impl DeepView for Droid {
    type V = CharacterRecord;

    open spec fn deep_view(&self) -> CharacterRecord {
        self@
    }
}

impl DeepView for Character {
    type V = CharacterView;

    open spec fn deep_view(&self) -> CharacterView {
        self@
    }
}

impl Human {
    #[verifier::type_invariant]
    spec fn discriminator_says_human(self) -> bool {
        self.0.is_human
    }

    /// Shows `record` as a human, where its discriminator says so.
    pub fn new(record: StarWarsChar) -> (shown: Option<Human>)
        ensures
            shown is Some <==> record@.is_human,
            shown matches Some(human) ==> human@ == record@,
    {
        if record.is_human {
            Some(Human(record))
        } else {
            None
        }
    }

    /// Shows as a human a record whose discriminator says so.
    pub(crate) fn of_record(record: StarWarsChar) -> (human: Human)
        requires
            record@.is_human,
        ensures
            human@ == record@,
    {
        Human(record)
    }

    /// The record under the view; its discriminator says human.
    pub fn record(&self) -> (record: &StarWarsChar)
        ensures
            record@ == self@,
            record@.is_human,
    {
        proof {
            use_type_invariant(self);
        }
        &self.0
    }

    /// The id of the human.
    pub fn id(&self) -> (id: String)
        ensures
            id@ == self@.id,
    {
        self.0.id.clone()
    }

    /// The name of the human.
    pub fn name(&self) -> (name: String)
        ensures
            name@ == self@.name,
    {
        self.0.name.clone()
    }

    /// Begins to resolve the friends of the human; none where they have
    /// none.
    pub fn friends(&self) -> (fanout: Fanout)
        ensures
            fanout@.wf(),
            fanout@.ids == self@.friends,
            fanout@.launched == 0,
            fanout@.in_flight() == 0,
    {
        Fanout::new(self.0.friends.clone())
    }

    /// Which movies they appear in.
    pub fn appears_in(&self) -> (episodes: Vec<Episode>)
        ensures
            episodes@ == self@.appears_in,
    {
        self.0.appears_in.clone()
    }

    /// The home planet of the human, or `None` if unknown.
    pub fn home_planet(&self) -> (planet: Option<String>)
        ensures
            planet.deep_view() == self@.home_planet,
    {
        self.0.home_planet.clone()
    }
}

impl Droid {
    #[verifier::type_invariant]
    spec fn discriminator_says_droid(self) -> bool {
        !self.0.is_human
    }

    /// Shows `record` as a droid, where its discriminator says so.
    pub fn new(record: StarWarsChar) -> (shown: Option<Droid>)
        ensures
            shown is Some <==> !record@.is_human,
            shown matches Some(droid) ==> droid@ == record@,
    {
        if record.is_human {
            None
        } else {
            Some(Droid(record))
        }
    }

    /// Shows as a droid a record whose discriminator says so.
    pub(crate) fn of_record(record: StarWarsChar) -> (droid: Droid)
        requires
            !record@.is_human,
        ensures
            droid@ == record@,
    {
        Droid(record)
    }

    /// The record under the view; its discriminator says droid.
    pub fn record(&self) -> (record: &StarWarsChar)
        ensures
            record@ == self@,
            !record@.is_human,
    {
        proof {
            use_type_invariant(self);
        }
        &self.0
    }

    /// The id of the droid.
    pub fn id(&self) -> (id: String)
        ensures
            id@ == self@.id,
    {
        self.0.id.clone()
    }

    /// The name of the droid.
    pub fn name(&self) -> (name: String)
        ensures
            name@ == self@.name,
    {
        self.0.name.clone()
    }

    /// Begins to resolve the friends of the droid; none where they have
    /// none.
    pub fn friends(&self) -> (fanout: Fanout)
        ensures
            fanout@.wf(),
            fanout@.ids == self@.friends,
            fanout@.launched == 0,
            fanout@.in_flight() == 0,
    {
        Fanout::new(self.0.friends.clone())
    }

    /// Which movies they appear in.
    pub fn appears_in(&self) -> (episodes: Vec<Episode>)
        ensures
            episodes@ == self@.appears_in,
    {
        self.0.appears_in.clone()
    }

    /// The primary function of the droid.
    pub fn primary_function(&self) -> (function: Option<String>)
        ensures
            function.deep_view() == self@.primary_function,
    {
        self.0.primary_function.clone()
    }
}

impl Clone for Human {
    fn clone(&self) -> (copy: Self)
        ensures
            copy@ == self@,
    {
        proof {
            use_type_invariant(self);
        }
        Human(self.0.clone())
    }
}

impl Clone for Droid {
    fn clone(&self) -> (copy: Self)
        ensures
            copy@ == self@,
    {
        proof {
            use_type_invariant(self);
        }
        Droid(self.0.clone())
    }
}

impl Clone for Character {
    fn clone(&self) -> (copy: Self)
        ensures
            copy@ == self@,
    {
        match self {
            Character::Human(human) => Character::Human(human.clone()),
            Character::Droid(droid) => Character::Droid(droid.clone()),
        }
    }
}

impl From<Human> for Character {
    fn from(human: Human) -> (shown: Character) {
        Character::Human(human)
    }
}

impl vstd::std_specs::convert::FromSpecImpl<Human> for Character {
    open spec fn obeys_from_spec() -> bool {
        true
    }

    open spec fn from_spec(human: Human) -> Character {
        Character::Human(human)
    }
}

impl From<Droid> for Character {
    fn from(droid: Droid) -> (shown: Character) {
        Character::Droid(droid)
    }
}

impl vstd::std_specs::convert::FromSpecImpl<Droid> for Character {
    open spec fn obeys_from_spec() -> bool {
        true
    }

    open spec fn from_spec(droid: Droid) -> Character {
        Character::Droid(droid)
    }
}

impl Character {
    /// Shows `record` under the view that its discriminator selects.
    pub fn from_record(record: StarWarsChar) -> (shown: Character)
        ensures
            shown@ == classify(record@),
    {
        if record.is_human {
            Character::Human(Human(record))
        } else {
            Character::Droid(Droid(record))
        }
    }

    /// The record under the view. Its discriminator agrees with the view.
    pub fn record(&self) -> (record: &StarWarsChar)
        ensures
            record@ == self@.record(),
            self@ == classify(record@),
    {
        match self {
            Character::Human(human) => human.record(),
            Character::Droid(droid) => droid.record(),
        }
    }

    /// The id of the character.
    pub fn id(&self) -> (id: String)
        ensures
            id@ == self@.record().id,
    {
        match self {
            Character::Human(human) => human.id(),
            Character::Droid(droid) => droid.id(),
        }
    }

    /// The name of the character.
    pub fn name(&self) -> (name: String)
        ensures
            name@ == self@.record().name,
    {
        match self {
            Character::Human(human) => human.name(),
            Character::Droid(droid) => droid.name(),
        }
    }

    /// Begins to resolve the friends of the character.
    pub fn friends(&self) -> (fanout: Fanout)
        ensures
            fanout@.wf(),
            fanout@.ids == self@.record().friends,
            fanout@.launched == 0,
            fanout@.in_flight() == 0,
    {
        match self {
            Character::Human(human) => human.friends(),
            Character::Droid(droid) => droid.friends(),
        }
    }

    /// Which movies they appear in.
    pub fn appears_in(&self) -> (episodes: Vec<Episode>)
        ensures
            episodes@ == self@.record().appears_in,
    {
        match self {
            Character::Human(human) => human.appears_in(),
            Character::Droid(droid) => droid.appears_in(),
        }
    }
}

} // verus!
