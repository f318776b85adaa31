//! Worker rosters. A roster entry pairs a player identifier with a flag that
//! records whether that player has already worked in the current cycle.

use vstd::prelude::*;

verus! {

/// Why a worker could not be hired.
#[derive(Clone, Copy, Debug, PartialEq, Eq, Structural)]
pub enum HireError {
    /// Every worker slot of the facility is taken.
    NoSlots,
    /// The player is already on the roster.
    AlreadyHired,
}

/// Why a work cycle could not be carried out.
#[derive(Clone, Copy, Debug, PartialEq, Eq, Structural)]
pub enum WorkError {
    /// The player is not on the roster of the facility.
    NotHired,
    /// The player has already worked in the current cycle.
    AlreadyWorked,
    /// The player lacks the energy a work cycle costs.
    NotEnoughEnergy,
    /// The facility does not own enough of a recipe input.
    MissingInput(crate::materials::Material),
    /// The recipe names an input this facility may not consume.
    UnsupportedInput,
}

/// The roster with the worked flag of `pid` set.
pub open spec fn roster_mark(r: Seq<(u32, bool)>, pid: u32) -> Seq<(u32, bool)> {
    Seq::new(r.len(), |i: int| if r[i].0 == pid { (pid, true) } else { r[i] })
}

/// Whether `pid` appears on the roster.
pub open spec fn roster_has(r: Seq<(u32, bool)>, pid: u32) -> bool {
    exists|i: int| 0 <= i < r.len() && r[i].0 == pid
}

/// Whether `pid` appears on the roster with its worked flag set.
pub open spec fn roster_worked(r: Seq<(u32, bool)>, pid: u32) -> bool {
    exists|i: int| 0 <= i < r.len() && r[i] == (pid, true)
}

/// No player appears on the roster twice.
pub open spec fn roster_unique(r: Seq<(u32, bool)>) -> bool {
    forall|i: int, j: int| 0 <= i < j < r.len() ==> r[i].0 != r[j].0
}

/// The same roster with every worked flag cleared.
pub open spec fn roster_reset(r: Seq<(u32, bool)>) -> Seq<(u32, bool)> {
    Seq::new(r.len(), |i: int| (r[i].0, false))
}

/// Finds the roster entry of `pid`, if any.
pub(crate) fn roster_find(v: &Vec<(u32, bool)>, pid: u32) -> (r: Option<usize>)
    ensures
        match r {
            Some(i) => i < v@.len() && v@[i as int].0 == pid,
            None => !roster_has(v@, pid),
        },
{
    let n = v.len();
    let mut i: usize = 0;
    while i < n
        invariant
            i <= n,
            n == v@.len(),
            forall|j: int| 0 <= j < i ==> v@[j].0 != pid,
        decreases n - i,
    {
        if v[i].0 == pid {
            return Some(i);
        }
        i += 1;
    }
    None
}

/// Clears the worked flag of every entry.
pub(crate) fn roster_clear_flags(v: &mut Vec<(u32, bool)>)
    ensures
        final(v)@ == roster_reset(old(v)@),
{
    let n = v.len();
    let mut i: usize = 0;
    while i < n
        invariant
            i <= n,
            n == v@.len(),
            v@.len() == old(v)@.len(),
            forall|j: int| 0 <= j < i ==> v@[j] == (old(v)@[j].0, false),
            forall|j: int| i <= j < n ==> v@[j] == old(v)@[j],
        decreases n - i,
    {
        let pid = v[i].0;
        v.set(i, (pid, false));
        i += 1;
    }
    proof {
        assert(v@ =~= roster_reset(old(v)@));
    }
}

/// A copy of the roster with the same entries.
pub(crate) fn roster_copy(v: &Vec<(u32, bool)>) -> (r: Vec<(u32, bool)>)
    ensures
        r@ == v@,
{
    let n = v.len();
    let mut out: Vec<(u32, bool)> = Vec::new();
    let mut i: usize = 0;
    while i < n
        invariant
            i <= n,
            n == v@.len(),
            out@ == v@.subrange(0, i as int),
        decreases n - i,
    {
        out.push(v[i]);
        proof {
            assert(out@ =~= v@.subrange(0, (i + 1) as int));
        }
        i += 1;
    }
    proof {
        assert(out@ =~= v@);
    }
    out
}

/// A copy of a list of recipe inputs with the same entries.
pub(crate) fn inputs_copy(v: &Vec<(crate::materials::Material, u32)>) -> (r: Vec<
    (crate::materials::Material, u32),
>)
    ensures
        r@ == v@,
{
    let n = v.len();
    let mut out: Vec<(crate::materials::Material, u32)> = Vec::new();
    let mut i: usize = 0;
    while i < n
        invariant
            i <= n,
            n == v@.len(),
            out@ == v@.subrange(0, i as int),
        decreases n - i,
    {
        out.push(v[i]);
        proof {
            assert(out@ =~= v@.subrange(0, (i + 1) as int));
        }
        i += 1;
    }
    proof {
        assert(out@ =~= v@);
    }
    out
}

} // verus!
