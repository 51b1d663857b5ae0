use vstd::prelude::*;
use crate::error::{is_lookup_error, lookup_error, ServerError};

verus! {

/// `i` is the position of the first atom whose symbol is `symbol`.
///
/// A symbol is given by the engine's handle of it; equal symbols have equal handles.
pub open spec fn is_first_match(atoms: Seq<u64>, symbol: u64, i: int) -> bool {
    &&& 0 <= i < atoms.len()
    &&& atoms[i] == symbol
    &&& forall|j: int| 0 <= j < i ==> atoms[j] != symbol
}

/// Every symbol of `assumptions` is an atom of `atoms`.
pub open spec fn all_defined(atoms: Seq<u64>, assumptions: Seq<(u64, bool)>) -> bool {
    forall|k: int| 0 <= k < assumptions.len() ==> atoms.contains(#[trigger] assumptions[k].0)
}

/// `lits` pairs each assumption, in order, with the first atom of its symbol and its sign.
pub open spec fn resolves(
    atoms: Seq<u64>,
    assumptions: Seq<(u64, bool)>,
    lits: Seq<(usize, bool)>,
) -> bool {
    &&& lits.len() == assumptions.len()
    &&& forall|k: int|
        0 <= k < lits.len() ==> is_first_match(atoms, assumptions[k].0, #[trigger] lits[k].0 as int)
            && lits[k].1 == assumptions[k].1
}

/// The position of the first atom whose symbol is `symbol`, scanning from the start.
pub fn find_atom(atoms: &Vec<u64>, symbol: u64) -> (r: Option<usize>)
    ensures
        match r {
            Some(i) => is_first_match(atoms@, symbol, i as int),
            None => !atoms@.contains(symbol),
        },
{
    let mut i: usize = 0;
    while i < atoms.len()
        invariant
            i <= atoms@.len(),
            forall|j: int| 0 <= j < i ==> atoms@[j] != symbol,
        decreases atoms@.len() - i,
    {
        if atoms[i] == symbol {
            return Some(i);
        }
        i = i + 1;
    }
    None
}

/// Resolves each `(symbol, sign)` assumption to the first atom of its symbol, keeping its
/// sign; the caller negates the atom's literal where the sign is false.
///
/// Fails with a `LookupError` carrying `missing` as soon as one symbol is no atom: nothing is
/// resolved in part.
pub fn resolve_assumptions(atoms: &Vec<u64>, assumptions: &Vec<(u64, bool)>, missing: &str) -> (r:
    Result<Vec<(usize, bool)>, ServerError>)
    ensures
        r is Ok <==> all_defined(atoms@, assumptions@),
        match r {
            Ok(lits) => resolves(atoms@, assumptions@, lits@),
            Err(_) => is_lookup_error(r, missing@),
        },
{
    let mut lits: Vec<(usize, bool)> = Vec::new();
    let mut k: usize = 0;
    while k < assumptions.len()
        invariant
            k <= assumptions@.len(),
            lits@.len() == k,
            forall|m: int|
                0 <= m < k ==> is_first_match(atoms@, assumptions@[m].0, #[trigger] lits@[m].0 as int)
                    && lits@[m].1 == assumptions@[m].1,
            forall|m: int| 0 <= m < k ==> atoms@.contains(#[trigger] assumptions@[m].0),
        decreases assumptions@.len() - k,
    {
        let (symbol, sign) = assumptions[k];
        match find_atom(atoms, symbol) {
            Some(i) => {
                let ghost before = lits@;
                lits.push((i, sign));
                proof {
                    assert(lits@ == before.push((i, sign)));
                    assert(assumptions@[k as int] == (symbol, sign));
                    assert(atoms@[i as int] == symbol);
                    assert forall|m: int| 0 <= m < k + 1 implies is_first_match(
                        atoms@,
                        assumptions@[m].0,
                        #[trigger] lits@[m].0 as int,
                    ) && lits@[m].1 == assumptions@[m].1 by {
                        if m < k {
                            assert(lits@[m] == before[m]);
                        }
                    }
                }
            },
            None => {
                return Err(lookup_error(missing));
            },
        }
        k = k + 1;
    }
    Ok(lits)
}

} // verus!
