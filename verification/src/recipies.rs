//! Production recipes: which materials, and how much of each, one unit of
//! output consumes.

use vstd::prelude::*;
use crate::materials::Material;

verus! {

/// The canonical food recipe, as (material, amount per unit) pairs.
pub open spec fn food_inputs_spec() -> Seq<(Material, u32)> {
    seq![
        (Material::Electricity, 10u32),
        (Material::Water, 5u32),
        (Material::Grain, 5u32),
    ]
}

/// A list of required inputs for one unit of production.
#[derive(Debug, Clone)]
pub struct Recipe {
    pub inputs: Vec<(Material, u32)>,
}

impl Recipe {
    /// The recipe of the food production chain.
    pub fn food() -> (r: Recipe)
        ensures
            r.inputs@ == food_inputs_spec(),
    {
        Recipe { inputs: food_input_pairs() }
    }

    /// A recipe with no inputs at all.
    pub fn empty() -> (r: Recipe)
        ensures
            r.inputs@ == Seq::<(Material, u32)>::empty(),
    {
        Recipe { inputs: Vec::new() }
    }

    /// A recipe built from an arbitrary list of inputs.
    pub fn dynamic(inputs: Vec<(Material, u32)>) -> (r: Recipe)
        ensures
            r.inputs@ == inputs@,
    {
        Recipe { inputs }
    }
}

/// What materials, and how much of each, one unit of a consumable costs.
#[derive(Debug, Clone)]
pub struct ConsumableRecipe {
    pub inputs: Vec<(Material, u32)>,
}

impl ConsumableRecipe {
    pub fn food_recipe() -> (r: ConsumableRecipe)
        ensures
            r.inputs@ == food_inputs_spec(),
    {
        ConsumableRecipe { inputs: food_input_pairs() }
    }
}

fn food_input_pairs() -> (r: Vec<(Material, u32)>)
    ensures
        r@ == food_inputs_spec(),
{
    let mut v: Vec<(Material, u32)> = Vec::new();
    v.push((Material::Electricity, 10));
    v.push((Material::Water, 5));
    v.push((Material::Grain, 5));
    proof {
        assert(v@ =~= food_inputs_spec());
    }
    v
}

} // verus!
