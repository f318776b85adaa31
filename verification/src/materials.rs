//! The material catalog: a closed set of tradeable goods with stable string
//! keys, and the per-material inventory a facility owns.

use vstd::prelude::*;
use vstd::string::StrSliceExecFns;

verus! {

/// A good that can be produced, consumed and traded on the exchange.
#[derive(Clone, Copy, Debug, PartialEq, Eq, Structural, Hash)]
pub enum Material {
    Grain,
    Electricity,
    Water,
    Food,
}

impl Material {
    /// The stable textual key under which this material is persisted.
    pub open spec fn key_spec(self) -> Seq<char> {
        match self {
            Material::Grain => "Grain"@,
            Material::Electricity => "Electricity"@,
            Material::Water => "Water"@,
            Material::Food => "Food"@,
        }
    }

    /// The unit of measure shown for this material.
    pub open spec fn unit_spec(self) -> Seq<char> {
        match self {
            Material::Grain => "kg"@,
            Material::Electricity => "kWh"@,
            Material::Water => "liters"@,
            Material::Food => "packages"@,
        }
    }

    /// The material whose storage key is `s`, if any.
    pub open spec fn from_key_spec(s: Seq<char>) -> Option<Material> {
        if s == "Grain"@ {
            Some(Material::Grain)
        } else if s == "Electricity"@ {
            Some(Material::Electricity)
        } else if s == "Water"@ {
            Some(Material::Water)
        } else if s == "Food"@ {
            Some(Material::Food)
        } else {
            None
        }
    }

    pub fn unit(&self) -> (r: &'static str)
        ensures
            r@ == self.unit_spec(),
    {
        match self {
            Material::Grain => "kg",
            Material::Electricity => "kWh",
            Material::Water => "liters",
            Material::Food => "packages",
        }
    }

    pub fn display_name(&self) -> (r: &'static str)
        ensures
            r@ == self.key_spec(),
    {
        match self {
            Material::Grain => "Grain",
            Material::Electricity => "Electricity",
            Material::Water => "Water",
            Material::Food => "Food",
        }
    }

    /// Parses a storage key back into a material; unknown keys give `None`.
    pub fn from_str(name: &str) -> (r: Option<Material>)
        ensures
            r == Material::from_key_spec(name@),
    {
        if str_eq(name, "Grain") {
            Some(Material::Grain)
        } else if str_eq(name, "Electricity") {
            Some(Material::Electricity)
        } else if str_eq(name, "Water") {
            Some(Material::Water)
        } else if str_eq(name, "Food") {
            Some(Material::Food)
        } else {
            None
        }
    }

    pub fn to_string_key(&self) -> (r: &'static str)
        ensures
            r@ == self.key_spec(),
    {
        self.display_name()
    }

    /// Every material, in catalog order.
    pub fn all() -> (r: Vec<Material>)
        ensures
            r@ == seq![
                Material::Grain,
                Material::Electricity,
                Material::Water,
                Material::Food,
            ],
    {
        let mut v: Vec<Material> = Vec::new();
        v.push(Material::Grain);
        v.push(Material::Electricity);
        v.push(Material::Water);
        v.push(Material::Food);
        proof {
            assert(v@ =~= seq![
                Material::Grain,
                Material::Electricity,
                Material::Water,
                Material::Food,
            ]);
        }
        v
    }
}

/// Storage keys identify materials uniquely: parsing the key of any material
/// gives that material back.
pub proof fn lemma_key_round_trip(m: Material)
    ensures
        Material::from_key_spec(m.key_spec()) == Some(m),
{
    reveal_strlit("Grain");
    reveal_strlit("Electricity");
    reveal_strlit("Water");
    reveal_strlit("Food");
    assert("Grain"@.len() == 5);
    assert("Electricity"@.len() == 11);
    assert("Water"@.len() == 5);
    assert("Food"@.len() == 4);
    assert("Water"@[0] == 'W');
    assert("Grain"@[0] == 'G');
}

/// Character-by-character string equality: returns whether the two string
/// slices have the same character content.
fn str_eq(a: &str, b: &str) -> (r: bool)
    ensures
        r == (a@ == b@),
{
    let la = a.unicode_len();
    let lb = b.unicode_len();
    if la != lb {
        return false;
    }
    let mut i: usize = 0;
    while i < la
        invariant
            i <= la,
            la == a@.len(),
            lb == b@.len(),
            la == lb,
            forall|j: int| 0 <= j < i ==> a@[j] == b@[j],
        decreases la - i,
    {
        let ca = a.get_char(i);
        let cb = b.get_char(i);
        if ca != cb {
            return false;
        }
        i += 1;
    }
    proof {
        assert(a@ =~= b@);
    }
    true
}

/// Unsigned addition that stops at the largest representable value.
pub open spec fn sat_add_u32(a: u32, b: u32) -> u32 {
    if a + b > u32::MAX {
        u32::MAX
    } else {
        (a + b) as u32
    }
}

/// Addition of a non-negative mathematical amount to an inventory count,
/// stopping at the largest representable value.
pub open spec fn sat_add_u32_int(a: u32, b: int) -> u32 {
    if a + b > u32::MAX {
        u32::MAX
    } else {
        (a + b) as u32
    }
}

/// Multiplication of two quantities, stopping at the largest representable
/// value.
pub open spec fn sat_mul_u32(a: u32, b: u32) -> u32 {
    if a * b > u32::MAX {
        u32::MAX
    } else {
        (a * b) as u32
    }
}

/// Tracks how much of each material a facility owns.
#[derive(Clone, Copy, Debug, PartialEq, Eq, Structural)]
pub struct OwnsMaterials {
    pub grain: u32,
    pub electricity: u32,
    pub water: u32,
    pub food: u32,
}

impl OwnsMaterials {
    /// The owned quantity of one material.
    pub open spec fn amount_spec(self, mat: Material) -> u32 {
        match mat {
            Material::Grain => self.grain,
            Material::Electricity => self.electricity,
            Material::Water => self.water,
            Material::Food => self.food,
        }
    }

    /// This inventory with the quantity of `mat` replaced by `q`.
    pub open spec fn with_amount(self, mat: Material, q: u32) -> OwnsMaterials {
        match mat {
            Material::Grain => OwnsMaterials { grain: q, ..self },
            Material::Electricity => OwnsMaterials { electricity: q, ..self },
            Material::Water => OwnsMaterials { water: q, ..self },
            Material::Food => OwnsMaterials { food: q, ..self },
        }
    }

    pub fn new() -> (r: OwnsMaterials)
        ensures
            r == (OwnsMaterials { grain: 0, electricity: 0, water: 0, food: 0 }),
    {
        OwnsMaterials { grain: 0, electricity: 0, water: 0, food: 0 }
    }

    pub fn amount_of(&self, mat: Material) -> (r: u32)
        ensures
            r == self.amount_spec(mat),
    {
        match mat {
            Material::Grain => self.grain,
            Material::Electricity => self.electricity,
            Material::Water => self.water,
            Material::Food => self.food,
        }
    }

    /// Credits `amount` units of `mat`, stopping at `u32::MAX`.
    pub fn add(&mut self, mat: Material, amount: u32)
        ensures
            *final(self) == old(self).with_amount(
                mat,
                sat_add_u32(old(self).amount_spec(mat), amount),
            ),
    {
        let have = self.amount_of(mat);
        let total = if have > u32::MAX - amount {
            u32::MAX
        } else {
            have + amount
        };
        match mat {
            Material::Grain => self.grain = total,
            Material::Electricity => self.electricity = total,
            Material::Water => self.water = total,
            Material::Food => self.food = total,
        }
    }

    /// Rewriting one material's quantity reads back as that quantity and
    /// leaves every other material unchanged.
    pub proof fn lemma_with_amount(self, mat: Material, q: u32)
        ensures
            self.with_amount(mat, q).amount_spec(mat) == q,
            forall|m2: Material|
                m2 != mat ==> self.with_amount(mat, q).amount_spec(m2) == self.amount_spec(m2),
    {
        match mat {
            Material::Grain => {},
            Material::Electricity => {},
            Material::Water => {},
            Material::Food => {},
        }
    }

    /// Removes `amount` units of `mat`; trying to remove more than is
    /// owned changes nothing (the surrounding simulation treats an overdraw
    /// as a warning, not a debit).
    pub fn remove(&mut self, mat: Material, amount: u32)
        ensures
            *final(self) == (if amount > old(self).amount_spec(mat) {
                *old(self)
            } else {
                old(self).with_amount(mat, (old(self).amount_spec(mat) - amount) as u32)
            }),
    {
        let have = self.amount_of(mat);
        if amount > have {
            return;
        }
        let rest = have - amount;
        match mat {
            Material::Grain => self.grain = rest,
            Material::Electricity => self.electricity = rest,
            Material::Water => self.water = rest,
            Material::Food => self.food = rest,
        }
    }
}

} // verus!
