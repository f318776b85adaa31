//! The generic production-facility configurations the simulation starts
//! with.

use vstd::prelude::*;
use vstd::string::StringExecFns;
use crate::materials::Material;
use crate::recipies::Recipe;

verus! {

/// Base configuration of a generic production facility.
#[derive(Debug, Clone)]
pub struct Prod {
    pub kind_name: String,
    pub human_prod_rate: u32,
    pub creates: Material,
    pub max_human_workers: u32,
    pub cost: u64,
    pub recipe: Recipe,
}

impl Prod {
    pub fn new(
        kind_name: String,
        human_prod_rate: u32,
        creates: Material,
        recipe: Recipe,
        cost: u64,
    ) -> (r: Prod)
        ensures
            r.kind_name == kind_name,
            r.human_prod_rate == human_prod_rate,
            r.creates == creates,
            r.max_human_workers == 10,
            r.cost == cost,
            r.recipe.inputs@ == recipe.inputs@,
    {
        Prod { kind_name, human_prod_rate, creates, max_human_workers: 10, cost, recipe }
    }
}

/// Every facility configuration, in the order the simulation creates them.
pub fn all_prods() -> (r: Vec<Prod>)
    ensures
        r@.len() == 4,
        r@[0].kind_name@ == "Water Company"@ && r@[0].human_prod_rate == 500 && r@[0].creates
            == Material::Water && r@[0].cost == 50 && r@[0].recipe.inputs@.len() == 0,
        r@[1].kind_name@ == "Power Plant"@ && r@[1].human_prod_rate == 200 && r@[1].creates
            == Material::Electricity && r@[1].cost == 50 && r@[1].recipe.inputs@.len() == 0,
        r@[2].kind_name@ == "Grain Farm"@ && r@[2].human_prod_rate == 100 && r@[2].creates
            == Material::Grain && r@[2].cost == 50 && r@[2].recipe.inputs@.len() == 0,
        r@[3].kind_name@ == "Food Processing Plant"@ && r@[3].human_prod_rate == 5 && r@[3].creates
            == Material::Food && r@[3].cost == 500 && r@[3].recipe.inputs@
            == crate::recipies::food_inputs_spec(),
{
    let mut v: Vec<Prod> = Vec::new();
    v.push(
        Prod::new(String::from_str("Water Company"), 500, Material::Water, Recipe::empty(), 50),
    );
    v.push(
        Prod::new(
            String::from_str("Power Plant"),
            200,
            Material::Electricity,
            Recipe::empty(),
            50,
        ),
    );
    v.push(
        Prod::new(String::from_str("Grain Farm"), 100, Material::Grain, Recipe::empty(), 50),
    );
    v.push(
        Prod::new(
            String::from_str("Food Processing Plant"),
            5,
            Material::Food,
            Recipe::food(),
            500,
        ),
    );
    v
}

} // verus!
