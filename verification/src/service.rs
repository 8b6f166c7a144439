//! What a service around the library answers: the abilities that there are, and the
//! comparisons of units that it is asked for.
use crate::abilities::opponent::{Ethereal, SaveBonus, SaveReroll, Ward};
use crate::abilities::weapon::{Bonus, Exploding, LeaderExtraAttacks, MortalWounds, Reroll};
use crate::compare::{
    can_average, can_simulate, is_average_of, is_simulation_of, AverageComparisonResult,
    SimulatedUnitResult, UnitComparator,
};
use crate::definitions::{field_values, AbilityDefinition, Field, FieldValue};
use crate::opponent::Opponent;
use crate::rollable::text::{decimal_text, push_number, string_of};
use crate::unit::Unit;
use vstd::prelude::*;
use vstd::string::StringExecFns;

verus! {

/// How an ability presents itself, under the name that requests call it by.
#[derive(Debug, Clone, PartialEq, Eq)]
pub struct AbilitySchema {
    pub id: String,
    pub name: String,
    pub description: String,
    pub fields: Vec<Field>,
}

/// What an [`AbilitySchema`] holds.
pub struct SchemaValue {
    pub id: Seq<char>,
    pub name: Seq<char>,
    pub description: Seq<char>,
    pub fields: Seq<FieldValue>,
}

impl View for AbilitySchema {
    type V = SchemaValue;

    open spec fn view(&self) -> SchemaValue {
        SchemaValue {
            id: self.id@,
            name: self.name@,
            description: self.description@,
            fields: field_values(self.fields@),
        }
    }
}

/// What a list of schemas holds.
pub open spec fn schema_values(schemas: Seq<AbilitySchema>) -> Seq<SchemaValue> {
    Seq::new(schemas.len(), |i: int| schemas[i]@)
}

/// The schema of an ability under the given name.
pub open spec fn schema_of<T: AbilityDefinition>(id: Seq<char>) -> SchemaValue {
    SchemaValue {
        id,
        name: T::spec_name(),
        description: T::spec_description(),
        fields: T::spec_fields(),
    }
}

/// The abilities of weapons and those of opponents.
#[derive(Debug, Clone, PartialEq, Eq)]
pub struct AbilitiesResponse {
    pub weapon: Vec<AbilitySchema>,
    pub opponent: Vec<AbilitySchema>,
}

fn ability_schema<T: AbilityDefinition>(id: &str) -> (r: AbilitySchema)
    ensures
        r@ == schema_of::<T>(id@),
{
    AbilitySchema {
        id: String::from_str(id),
        name: T::name(),
        description: T::description(),
        fields: T::fields(),
    }
}

/// Every ability that there is, with its name, its description and its fields.
pub fn get_abilities() -> (r: AbilitiesResponse)
    ensures
        schema_values(r.weapon@) == seq![
            schema_of::<Reroll>("Reroll"@),
            schema_of::<Bonus>("Bonus"@),
            schema_of::<LeaderExtraAttacks>("LeaderExtraAttacks"@),
            schema_of::<Exploding>("Exploding"@),
            schema_of::<MortalWounds>("MortalWounds"@),
        ],
        schema_values(r.opponent@) == seq![
            schema_of::<SaveReroll>("SaveReroll"@),
            schema_of::<SaveBonus>("SaveBonus"@),
            schema_of::<Ward>("Ward"@),
            schema_of::<Ethereal>("Ethereal"@),
        ],
{
    let mut weapon: Vec<AbilitySchema> = Vec::new();
    weapon.push(ability_schema::<Reroll>("Reroll"));
    weapon.push(ability_schema::<Bonus>("Bonus"));
    weapon.push(ability_schema::<LeaderExtraAttacks>("LeaderExtraAttacks"));
    weapon.push(ability_schema::<Exploding>("Exploding"));
    weapon.push(ability_schema::<MortalWounds>("MortalWounds"));
    let mut opponent: Vec<AbilitySchema> = Vec::new();
    opponent.push(ability_schema::<SaveReroll>("SaveReroll"));
    opponent.push(ability_schema::<SaveBonus>("SaveBonus"));
    opponent.push(ability_schema::<Ward>("Ward"));
    opponent.push(ability_schema::<Ethereal>("Ethereal"));
    assert(schema_values(weapon@) =~= seq![
        schema_of::<Reroll>("Reroll"@),
        schema_of::<Bonus>("Bonus"@),
        schema_of::<LeaderExtraAttacks>("LeaderExtraAttacks"@),
        schema_of::<Exploding>("Exploding"@),
        schema_of::<MortalWounds>("MortalWounds"@),
    ]);
    assert(schema_values(opponent@) =~= seq![
        schema_of::<SaveReroll>("SaveReroll"@),
        schema_of::<SaveBonus>("SaveBonus"@),
        schema_of::<Ward>("Ward"@),
        schema_of::<Ethereal>("Ethereal"@),
    ]);
    AbilitiesResponse { weapon, opponent }
}

/// The units whose averages are asked for, and the opponent that they attack.
#[derive(Debug)]
pub struct AverageComparisonRequestBody {
    pub units: Vec<Unit>,
    pub opponent: Option<Opponent>,
}

/// The averages of each unit.
#[derive(Debug)]
pub struct AverageComparisonResponse {
    pub results: Vec<AverageComparisonResult>,
}

/// The opponent of a request, by reference.
pub open spec fn opponent_of(opponent: &Option<Opponent>) -> Option<&Opponent> {
    match opponent {
        Some(opponent) => Some(opponent),
        None => None,
    }
}

/// The average damage and the largest damage of every unit that is asked for, or nothing
/// where those of some unit leave the bits that hold them.
pub fn compare_average(payload: &AverageComparisonRequestBody) -> (r: Option<
    AverageComparisonResponse,
>)
    ensures
        r is Some <==> forall|i: int|
            0 <= i < payload.units@.len() ==> can_average(
                #[trigger] payload.units@[i],
                opponent_of(&payload.opponent),
            ),
        r matches Some(response) ==> response.results@.len() == payload.units@.len()
            && forall|i: int|
            0 <= i < response.results@.len() ==> is_average_of(
                #[trigger] response.results@[i],
                payload.units@[i],
                opponent_of(&payload.opponent),
            ),
{
    let comparator = UnitComparator::new(payload.units.as_slice(), payload.opponent.as_ref());
    match comparator.checked_compare_average_damage() {
        Some(results) => Some(AverageComparisonResponse { results }),
        None => None,
    }
}

/// The trials of a simulation where a request names none.
pub const DEFAULT_ITERATIONS: u32 = 5_000;

/// The most trials that a request may ask for.
pub const MAX_ITERATIONS: u32 = 50_000;

/// The save that units are simulated against, and the number of trials.
#[derive(Debug, Clone, Copy, PartialEq, Eq, Structural)]
pub struct SimulatedComparisonRequestQuery {
    pub save: u32,
    pub iterations: u32,
}

/// The trials of a simulation where a request names none.
pub fn default_iterations() -> (r: u32)
    ensures
        r == DEFAULT_ITERATIONS,
{
    DEFAULT_ITERATIONS
}

/// The units that are simulated, and the opponent that they attack.
#[derive(Debug)]
pub struct SimulatedComparisonRequestBody {
    pub units: Vec<Unit>,
    pub opponent: Option<Opponent>,
}

/// The outcomes of each unit.
#[derive(Debug)]
pub struct SimulatedComparisonResponse {
    pub results: Vec<SimulatedUnitResult>,
}

/// Why a simulation is refused.
#[derive(Debug, Clone, Copy, PartialEq, Eq, Structural)]
pub enum SimulationRefusal {
    /// More trials were asked for than a request may ask for.
    TooManyIterations { max: u32, requested: u32 },
    /// Some unit cannot be simulated: the save is zero, a die has no side, a weapon has
    /// no model, or the numbers of the largest outcome leave 32 bits.
    CannotSimulate,
}

/// The message for a request that asks for too many trials.
pub open spec fn too_many_text(max: u32, requested: u32) -> Seq<char> {
    "Too many iterations. Max: "@ + decimal_text(max as nat) + ", Requested: "@ + decimal_text(
        requested as nat,
    )
}

impl SimulationRefusal {
    /// The message of the refusal.
    pub fn message(&self) -> (r: String)
        ensures
            r@ == (match *self {
                SimulationRefusal::TooManyIterations { max, requested } => too_many_text(
                    max,
                    requested,
                ),
                SimulationRefusal::CannotSimulate => "The units cannot be simulated"@,
            }),
    {
        match self {
            SimulationRefusal::TooManyIterations { max, requested } => {
                let mut message = String::from_str("Too many iterations. Max: ");
                let mut digits: Vec<char> = Vec::new();
                push_number(&mut digits, *max);
                message.append(string_of(&digits).as_str());
                message.append(", Requested: ");
                let mut digits: Vec<char> = Vec::new();
                push_number(&mut digits, *requested);
                message.append(string_of(&digits).as_str());
                assert(message@ =~= too_many_text(*max, *requested));
                message
            },
            SimulationRefusal::CannotSimulate => String::from_str("The units cannot be simulated"),
        }
    }
}

/// The outcomes of as many simulated trials as a request asks for, for every unit. A
/// request for more than `MAX_ITERATIONS` trials is refused, and so is one for units
/// that cannot be simulated.
pub fn compare_simulated(
    query: SimulatedComparisonRequestQuery,
    payload: &SimulatedComparisonRequestBody,
) -> (r: Result<SimulatedComparisonResponse, SimulationRefusal>)
    ensures
        query.iterations > MAX_ITERATIONS ==> r == Err::<
            SimulatedComparisonResponse,
            SimulationRefusal,
        >(
            SimulationRefusal::TooManyIterations {
                max: MAX_ITERATIONS,
                requested: query.iterations,
            },
        ),
        query.iterations <= MAX_ITERATIONS ==> (r is Ok <==> forall|i: int|
            0 <= i < payload.units@.len() ==> can_simulate(
                #[trigger] payload.units@[i],
                query.save,
                opponent_of(&payload.opponent),
            )),
        r is Err && query.iterations <= MAX_ITERATIONS ==> r == Err::<
            SimulatedComparisonResponse,
            SimulationRefusal,
        >(SimulationRefusal::CannotSimulate),
        r matches Ok(response) ==> response.results@.len() == payload.units@.len()
            && forall|i: int|
            0 <= i < response.results@.len() ==> is_simulation_of(
                #[trigger] response.results@[i],
                payload.units@[i],
                query.save,
                opponent_of(&payload.opponent),
                query.iterations,
            ),
{
    if query.iterations > MAX_ITERATIONS {
        return Err(
            SimulationRefusal::TooManyIterations {
                max: MAX_ITERATIONS,
                requested: query.iterations,
            },
        );
    }
    let comparator = UnitComparator::new(payload.units.as_slice(), payload.opponent.as_ref());
    if !comparator.is_ready(query.save) {
        return Err(SimulationRefusal::CannotSimulate);
    }
    let results = comparator.compare_simulated_damage(query.save, query.iterations);
    Ok(SimulatedComparisonResponse { results })
}

} // verus!
