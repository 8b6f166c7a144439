use aos_statshammer::abilities::opponent::Ward;
use aos_statshammer::definitions::AbilityDefinition;
use aos_statshammer::service::{
    compare_average, compare_simulated, default_iterations, get_abilities,
    AverageComparisonRequestBody, SimulatedComparisonRequestBody,
    SimulatedComparisonRequestQuery, SimulationRefusal, DEFAULT_ITERATIONS, MAX_ITERATIONS,
};
use aos_statshammer::testutils::weapons;
use aos_statshammer::{Dice, Opponent, Unit, Weapon};

fn units() -> Vec<Unit> {
    vec![
        Unit::new("Gotrek", vec![weapons::gotrek::zangrom_thaz()]),
        Unit::new("Chainrasp Horde", vec![weapons::chainrasp_horde::malignant_weapon()]),
    ]
}

#[test]
fn get_abilities_lists_every_ability() {
    let abilities = get_abilities();
    let weapon: Vec<&str> = abilities.weapon.iter().map(|a| a.id.as_str()).collect();
    assert_eq!(weapon, vec!["Reroll", "Bonus", "LeaderExtraAttacks", "Exploding", "MortalWounds"]);
    let opponent: Vec<&str> = abilities.opponent.iter().map(|a| a.id.as_str()).collect();
    assert_eq!(opponent, vec!["SaveReroll", "SaveBonus", "Ward", "Ethereal"]);
    use_definition::<aos_statshammer::abilities::weapon::Exploding>(&abilities.weapon[3]);
    use_definition::<aos_statshammer::abilities::opponent::Ward>(&abilities.opponent[2]);
}

fn use_definition<T: AbilityDefinition>(schema: &aos_statshammer::service::AbilitySchema) {
    assert_eq!(schema.name, T::name());
    assert_eq!(schema.description, T::description());
    assert_eq!(schema.fields, T::fields());
}

#[test]
fn compare_average_of_a_request() {
    let payload = AverageComparisonRequestBody {
        units: units(),
        opponent: Some(Opponent::new(vec![Ward { on: 4 }.into()])),
    };
    let response = compare_average(&payload).unwrap();
    assert_eq!(response.results.len(), 2);
    assert_eq!(response.results[0].name, "Gotrek");
    assert_eq!(response.results[0].max, 54);
    assert_eq!(response.results[1].name, "Chainrasp Horde");
    assert_eq!(response.results[1].max, 21);
    let plain = compare_average(&AverageComparisonRequestBody { units: units(), opponent: None })
        .unwrap();
    for i in 0..2 {
        for save in 0..7 {
            // Half of all damage is ignored.
            assert_eq!(
                response.results[i].averages.save_results[save].value * 2,
                plain.results[i].averages.save_results[save].value
            );
        }
    }
}

#[test]
fn compare_simulated_of_a_request() {
    let payload = SimulatedComparisonRequestBody { units: units(), opponent: None };
    let query = SimulatedComparisonRequestQuery { save: 4, iterations: 1_000 };
    let response = compare_simulated(query, &payload).unwrap();
    assert_eq!(response.results.len(), 2);
    assert_eq!(response.results[0].name, "Gotrek");
    assert_eq!(response.results[0].average.denominator, 1_000);
    assert_eq!(response.results[1].max, 21);
}

#[test]
fn compare_simulated_refuses_too_many_iterations() {
    let payload = SimulatedComparisonRequestBody { units: units(), opponent: None };
    let query = SimulatedComparisonRequestQuery { save: 4, iterations: 50_001 };
    let refusal = compare_simulated(query, &payload).unwrap_err();
    assert_eq!(refusal, SimulationRefusal::TooManyIterations { max: 50_000, requested: 50_001 });
    assert_eq!(refusal.message(), "Too many iterations. Max: 50000, Requested: 50001");
    let query = SimulatedComparisonRequestQuery { save: 4, iterations: MAX_ITERATIONS };
    assert!(compare_simulated(query, &payload).is_ok());
}

#[test]
fn compare_simulated_refuses_what_cannot_be_simulated() {
    let payload = SimulatedComparisonRequestBody { units: units(), opponent: None };
    let query = SimulatedComparisonRequestQuery { save: 0, iterations: 10 };
    let refusal = compare_simulated(query, &payload).unwrap_err();
    assert_eq!(refusal, SimulationRefusal::CannotSimulate);
    assert_eq!(refusal.message(), "The units cannot be simulated");
    let broken = Weapon::new(1, Dice::d(0).into(), 3, 3, 0, 1.into(), vec![]);
    let payload = SimulatedComparisonRequestBody {
        units: vec![Unit::new("Broken", vec![broken])],
        opponent: None,
    };
    let query = SimulatedComparisonRequestQuery { save: 4, iterations: 10 };
    assert_eq!(compare_simulated(query, &payload).unwrap_err(), SimulationRefusal::CannotSimulate);
}

#[test]
fn default_iterations_of_a_request() {
    assert_eq!(default_iterations(), 5_000);
    assert_eq!(DEFAULT_ITERATIONS, 5_000);
}
