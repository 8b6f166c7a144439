//! The defender and its abilities.
use crate::abilities::opponent::{OpponentAbility, SaveReroll, Ward};
use crate::rollable::Rollable;
use vstd::prelude::*;
use vstd::std_specs::convert::IntoSpec;

verus! {

/// The target of an attack. Without abilities it has no save modifiers of its own.
#[derive(Debug, PartialEq, Eq)]
pub struct Opponent {
    pub abilities: Vec<OpponentAbility>,
}

/// The rank of the save rerolls that an ability allows, or -1 where it allows none.
pub open spec fn save_reroll_rank(ability: OpponentAbility) -> int {
    match ability {
        OpponentAbility::SaveReroll(a) => a.reroll_type.rank(),
        _ => -1,
    }
}

/// The roll of a ward, or -1 for an ability that is no ward.
pub open spec fn ward_roll(ability: OpponentAbility) -> int {
    match ability {
        OpponentAbility::Ward(a) => a.on as int,
        _ => -1,
    }
}

/// The highest roll among the wards of the given abilities, or -1 where none is a ward.
pub open spec fn highest_ward(abilities: Seq<OpponentAbility>) -> int
    decreases abilities.len(),
{
    if abilities.len() == 0 {
        -1
    } else if ward_roll(abilities.last()) > highest_ward(abilities.drop_last()) {
        ward_roll(abilities.last())
    } else {
        highest_ward(abilities.drop_last())
    }
}

/// The highest rank among the save rerolls of the given abilities, or -1 where none is a
/// save reroll.
pub open spec fn highest_save_reroll(abilities: Seq<OpponentAbility>) -> int
    decreases abilities.len(),
{
    if abilities.len() == 0 {
        -1
    } else if save_reroll_rank(abilities.last()) > highest_save_reroll(abilities.drop_last()) {
        save_reroll_rank(abilities.last())
    } else {
        highest_save_reroll(abilities.drop_last())
    }
}

/// Whether every die of an opponent ability has at least one side.
pub open spec fn opponent_ability_has_sides(ability: OpponentAbility) -> bool {
    match ability {
        OpponentAbility::SaveBonus(a) => a.value.has_sides(),
        _ => true,
    }
}

impl Opponent {
    /// Every die of the abilities has at least one side, so that all of them can be
    /// rolled.
    pub open spec fn has_sides(&self) -> bool {
        forall|i: int|
            0 <= i < self.abilities@.len() ==> opponent_ability_has_sides(
                #[trigger] self.abilities@[i],
            )
    }

    /// Whether every die of the abilities has at least one side.
    pub fn can_be_rolled(&self) -> (r: bool)
        ensures
            r == self.has_sides(),
    {
        let mut i: usize = 0;
        while i < self.abilities.len()
            invariant
                i <= self.abilities.len(),
                forall|j: int|
                    0 <= j < i ==> opponent_ability_has_sides(#[trigger] self.abilities@[j]),
            decreases self.abilities.len() - i,
        {
            let rolled = match &self.abilities[i] {
                OpponentAbility::SaveBonus(a) => a.value.can_be_rolled(),
                _ => true,
            };
            if !rolled {
                return false;
            }
            i = i + 1;
        }
        true
    }

    /// A builder without abilities.
    pub fn builder() -> (r: OpponentBuilder)
        ensures
            r.abilities is None,
    {
        OpponentBuilder::default()
    }

    pub fn new(abilities: Vec<OpponentAbility>) -> (r: Self)
        ensures
            r.abilities == abilities,
    {
        Self { abilities }
    }

    /// The save reroll that applies: of all that the opponent has, the most permissive.
    pub fn reroll_ability(&self) -> (r: Option<&SaveReroll>)
        ensures
            r is Some <==> exists|i: int|
                0 <= i < self.abilities@.len() && #[trigger] self.abilities@[i] is SaveReroll,
            r is Some ==> self.abilities@.contains(OpponentAbility::SaveReroll(*r.unwrap())),
            r is Some ==> forall|i: int|
                0 <= i < self.abilities@.len() ==> save_reroll_rank(#[trigger] self.abilities@[i])
                    <= r.unwrap().reroll_type.rank(),
            highest_save_reroll(self.abilities@) == (match r {
                Some(a) => a.reroll_type.rank(),
                None => -1,
            }),
    {
        let mut best: Option<&SaveReroll> = None;
        let mut i: usize = 0;
        while i < self.abilities.len()
            invariant
                i <= self.abilities.len(),
                best is Some <==> exists|j: int|
                    0 <= j < i && #[trigger] self.abilities@[j] is SaveReroll,
                best is Some ==> self.abilities@.contains(
                    OpponentAbility::SaveReroll(*best.unwrap()),
                ),
                best is Some ==> forall|j: int|
                    0 <= j < i ==> save_reroll_rank(#[trigger] self.abilities@[j])
                        <= best.unwrap().reroll_type.rank(),
                highest_save_reroll(self.abilities@.take(i as int)) == (match best {
                    Some(a) => a.reroll_type.rank(),
                    None => -1,
                }),
            decreases self.abilities.len() - i,
        {
            assert(self.abilities@.take(i + 1).drop_last() =~= self.abilities@.take(i as int));
            match &self.abilities[i] {
                OpponentAbility::SaveReroll(a) => {
                    assert(self.abilities@[i as int] is SaveReroll);
                    let better = match best {
                        Some(b) => !b.reroll_type.outranks(a.reroll_type),
                        None => true,
                    };
                    if better {
                        best = Some(a);
                    }
                },
                _ => {},
            }
            i = i + 1;
        }
        assert(self.abilities@.take(i as int) =~= self.abilities@);
        best
    }

    /// The ward that applies: of all that the opponent has, one with the highest roll.
    pub fn ward(&self) -> (r: Option<&Ward>)
        ensures
            r is Some <==> exists|i: int|
                0 <= i < self.abilities@.len() && #[trigger] self.abilities@[i] is Ward,
            r is Some ==> self.abilities@.contains(OpponentAbility::Ward(*r.unwrap())),
            r is Some ==> forall|i: int|
                0 <= i < self.abilities@.len() ==> ward_roll(#[trigger] self.abilities@[i])
                    <= r.unwrap().on,
            highest_ward(self.abilities@) == (match r {
                Some(a) => a.on as int,
                None => -1,
            }),
    {
        let mut best: Option<&Ward> = None;
        let mut i: usize = 0;
        while i < self.abilities.len()
            invariant
                i <= self.abilities.len(),
                best is Some <==> exists|j: int|
                    0 <= j < i && #[trigger] self.abilities@[j] is Ward,
                best is Some ==> self.abilities@.contains(OpponentAbility::Ward(*best.unwrap())),
                best is Some ==> forall|j: int|
                    0 <= j < i ==> ward_roll(#[trigger] self.abilities@[j]) <= best.unwrap().on,
                highest_ward(self.abilities@.take(i as int)) == (match best {
                    Some(a) => a.on as int,
                    None => -1,
                }),
            decreases self.abilities.len() - i,
        {
            assert(self.abilities@.take(i + 1).drop_last() =~= self.abilities@.take(i as int));
            match &self.abilities[i] {
                OpponentAbility::Ward(a) => {
                    assert(self.abilities@[i as int] is Ward);
                    let better = match best {
                        Some(b) => a.on >= b.on,
                        None => true,
                    };
                    if better {
                        best = Some(a);
                    }
                },
                _ => {},
            }
            i = i + 1;
        }
        assert(self.abilities@.take(i as int) =~= self.abilities@);
        best
    }

    /// Whether the opponent ignores the modifiers to its save roll.
    pub fn is_ethereal(&self) -> (r: bool)
        ensures
            r <==> exists|i: int|
                0 <= i < self.abilities@.len() && #[trigger] self.abilities@[i] is Ethereal,
    {
        let mut i: usize = 0;
        while i < self.abilities.len()
            invariant
                i <= self.abilities.len(),
                forall|j: int| 0 <= j < i ==> !(#[trigger] self.abilities@[j] is Ethereal),
            decreases self.abilities.len() - i,
        {
            match &self.abilities[i] {
                OpponentAbility::Ethereal(_) => {
                    return true;
                },
                _ => {},
            }
            i = i + 1;
        }
        false
    }
}

/// Why an opponent could not be built. No opponent fails to be built today: whatever
/// abilities were given make one.
#[derive(Debug, PartialEq, Eq)]
pub struct OpponentBuilderError {}

/// Collects the abilities of an opponent one by one.
#[derive(Debug, PartialEq, Eq)]
pub struct OpponentBuilder {
    pub abilities: Option<Vec<OpponentAbility>>,
}

impl Default for OpponentBuilder {
    fn default() -> (r: Self)
        ensures
            r.abilities is None,
    {
        Self { abilities: None }
    }
}

impl OpponentBuilder {
    /// The abilities given so far.
    pub open spec fn given(&self) -> Seq<OpponentAbility> {
        match self.abilities {
            Some(abilities) => abilities@,
            None => Seq::empty(),
        }
    }

    /// Adds an ability: any value that converts into one.
    pub fn ability<T>(&mut self, value: T) -> (r: &mut Self) where T: Into<OpponentAbility>
        ensures
            r.abilities is Some,
            r.given().len() == old(self).given().len() + 1,
            r.given().drop_last() == old(self).given(),
            call_ensures(<T as Into<OpponentAbility>>::into, (value,), r.given().last()),
            T::obeys_into_spec() ==> r.given().last() == value.into_spec(),
            *final(self) == *final(r),
    {
        let ability: OpponentAbility = value.into();
        match &mut self.abilities {
            Some(abilities) => {
                abilities.push(ability);
            },
            None => {
                let mut abilities = Vec::new();
                abilities.push(ability);
                self.abilities = Some(abilities);
            },
        }
        assert(self.given().drop_last() =~= old(self).given());
        self
    }

    /// Makes the opponent of the abilities given so far, in their order. The builder
    /// keeps them, and can build again or take more.
    pub fn build(&self) -> (r: Result<Opponent, OpponentBuilderError>)
        ensures
            r is Ok,
            same_abilities(r.unwrap().abilities@, self.given()),
    {
        let mut abilities: Vec<OpponentAbility> = Vec::new();
        match &self.abilities {
            Some(given) => {
                let mut i: usize = 0;
                while i < given.len()
                    invariant
                        i <= given.len(),
                        same_abilities(abilities@, given@.take(i as int)),
                    decreases given.len() - i,
                {
                    abilities.push(given[i].duplicate());
                    i = i + 1;
                }
                assert(given@.take(i as int) =~= given@);
            },
            None => {},
        }
        Ok(Opponent { abilities })
    }
}

/// Whether two lists hold the same abilities in the same order.
pub open spec fn same_abilities(one: Seq<OpponentAbility>, other: Seq<OpponentAbility>) -> bool {
    one.len() == other.len() && forall|i: int|
        0 <= i < one.len() ==> (#[trigger] one[i]).same_as(other[i])
}

/// Lists of the same abilities have the same ward, the same rerolls of saves and the
/// same freedom from modifiers, and the dice of the one have sides where those of the
/// other have.
pub proof fn lemma_same_abilities(one: Seq<OpponentAbility>, other: Seq<OpponentAbility>)
    requires
        same_abilities(one, other),
    ensures
        highest_ward(one) == highest_ward(other),
        highest_save_reroll(one) == highest_save_reroll(other),
        (exists|i: int| 0 <= i < one.len() && #[trigger] one[i] is Ethereal) == (exists|i: int|
            0 <= i < other.len() && #[trigger] other[i] is Ethereal),
        (forall|i: int| 0 <= i < one.len() ==> opponent_ability_has_sides(#[trigger] one[i]))
            == (forall|i: int|
            0 <= i < other.len() ==> opponent_ability_has_sides(#[trigger] other[i])),
    decreases one.len(),
{
    if one.len() > 0 {
        let last = one.len() - 1;
        assert(one[last].same_as(other[last]));
        assert forall|i: int| 0 <= i < one.drop_last().len() implies (
        #[trigger] one.drop_last()[i]).same_as(other.drop_last()[i]) by {
            assert(one[i].same_as(other[i]));
        }
        lemma_same_abilities(one.drop_last(), other.drop_last());
    }
    if exists|i: int| 0 <= i < one.len() && #[trigger] one[i] is Ethereal {
        let i = choose|i: int| 0 <= i < one.len() && #[trigger] one[i] is Ethereal;
        assert(one[i].same_as(other[i]));
        assert(other[i] is Ethereal);
    }
    if exists|i: int| 0 <= i < other.len() && #[trigger] other[i] is Ethereal {
        let i = choose|i: int| 0 <= i < other.len() && #[trigger] other[i] is Ethereal;
        assert(one[i].same_as(other[i]));
        assert(one[i] is Ethereal);
    }
    assert forall|i: int| 0 <= i < one.len() implies opponent_ability_has_sides(one[i])
        == opponent_ability_has_sides(other[i]) by {
        assert(one[i].same_as(other[i]));
    }
}

} // verus!
