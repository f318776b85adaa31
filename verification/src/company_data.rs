//! The tiered company configurations the simulation starts with.

use vstd::prelude::*;
use vstd::string::StringExecFns;
use crate::manufacturing::TierTwoProdBase;
use crate::materials::Material;
use crate::production_companies::TierOneProdBase;
use crate::recipies::ConsumableRecipe;

verus! {

/// The tier-one company kinds: raw producers.
pub fn tier_one_prod_list() -> (r: Vec<TierOneProdBase>)
    ensures
        r@.len() == 3,
        r@[0].kind_name@ == "Grain Company"@ && r@[0].human_prod_rate == 100 && r@[0].creates
            == Material::Grain,
        r@[1].kind_name@ == "Power Plant"@ && r@[1].human_prod_rate == 200 && r@[1].creates
            == Material::Electricity,
        r@[2].kind_name@ == "Water Company"@ && r@[2].human_prod_rate == 1000 && r@[2].creates
            == Material::Water,
        forall|i: int|
            0 <= i < 3 ==> (#[trigger] r@[i]).robot_prod_rate == r@[i].human_prod_rate * 2
                && r@[i].max_human_workers == 10 && r@[i].max_robot_workers == 1 && r@[i].cost
                == 200,
{
    let mut v: Vec<TierOneProdBase> = Vec::new();
    v.push(TierOneProdBase::new(String::from_str("Grain Company"), 100, Material::Grain));
    v.push(TierOneProdBase::new(String::from_str("Power Plant"), 200, Material::Electricity));
    v.push(TierOneProdBase::new(String::from_str("Water Company"), 1000, Material::Water));
    v
}

/// The tier-two company kinds: refiners with a recipe.
pub fn tier_two_prod_list() -> (r: Vec<TierTwoProdBase>)
    ensures
        r@.len() == 1,
        r@[0].kind_name@ == "Food Factory"@ && r@[0].human_prod_rate == 50 && r@[0].creates
            == Material::Food && r@[0].consumes.inputs@ == crate::recipies::food_inputs_spec()
            && r@[0].cost == 400,
{
    let mut v: Vec<TierTwoProdBase> = Vec::new();
    v.push(
        TierTwoProdBase::new(
            String::from_str("Food Factory"),
            50,
            Material::Food,
            ConsumableRecipe::food_recipe(),
        ),
    );
    v
}

} // verus!
