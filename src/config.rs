use vstd::prelude::*;
use crate::results::ConfigurationResult;

verus! {

broadcast use vstd::std_specs::vec::group_vec_axioms;

/// `j` is the first entry of `entries` named `name`.
pub open spec fn is_first_name(entries: Seq<(String, ConfigurationResult)>, name: Seq<char>, j: int) -> bool {
    &&& 0 <= j < entries.len()
    &&& entries[j].0@ == name
    &&& forall|i: int| 0 <= i < j ==> entries[i].0@ != name
}

/// Some entry of `entries` is named `name`.
pub open spec fn has_name(entries: Seq<(String, ConfigurationResult)>, name: Seq<char>) -> bool {
    exists|j: int| is_first_name(entries, name, j)
}

/// The position of the first entry of `entries` named `name`, where there is one.
pub open spec fn first_index(entries: Seq<(String, ConfigurationResult)>, name: Seq<char>) -> int {
    choose|j: int| is_first_name(entries, name, j)
}

/// The first entry of a name is the one that `first_index` picks.
pub proof fn lemma_first_index(entries: Seq<(String, ConfigurationResult)>, name: Seq<char>, j: int)
    requires
        is_first_name(entries, name, j),
    ensures
        has_name(entries, name),
        first_index(entries, name) == j,
{
    let i = first_index(entries, name);
    assert(is_first_name(entries, name, i));
    if i < j {
        assert(entries[i].0@ != name);
    } else if i > j {
        assert(entries[j].0@ == name);
    }
}

/// No two entries share a name.
pub open spec fn distinct_names(entries: Seq<(String, ConfigurationResult)>) -> bool {
    forall|a: int, b: int|
        0 <= a < entries.len() && 0 <= b < entries.len() && a != b ==> entries[a].0@ != entries[b].0@
}

/// The overrides `new` can be written onto `cur`: each leaf of `new` meets a leaf of `cur`,
/// each array of `new` an array of `cur` at least as long, each map of `new` a map of `cur`
/// holding each of its names, and no map of `new` names an entry twice.
pub open spec fn fits(cur: ConfigurationResult, new: ConfigurationResult) -> bool
    decreases new,
{
    match new {
        ConfigurationResult::Value(_) => cur is Value,
        ConfigurationResult::Array(na) => match cur {
            ConfigurationResult::Array(ca) => na@.len() <= ca@.len() && forall|i: int|
                0 <= i < na@.len() ==> fits(ca@[i], #[trigger] na@[i]),
            _ => false,
        },
        ConfigurationResult::Mapping(nm) => match cur {
            ConfigurationResult::Mapping(cm) => distinct_names(nm@) && forall|k: int|
                0 <= k < nm@.len() ==> has_name(cm@, #[trigger] nm@[k].0@) && fits(
                    cm@[first_index(cm@, nm@[k].0@)].1,
                    nm@[k].1,
                ),
            _ => false,
        },
    }
}

/// `res` is `cur` with the leaves of `new` written over it: a leaf of `new` replaces the
/// value of the leaf it meets, an array of `new` is written position by position, a map of
/// `new` name by name onto the first entry of that name; everything else stays as it was.
pub open spec fn overlaid(
    cur: ConfigurationResult,
    new: ConfigurationResult,
    res: ConfigurationResult,
) -> bool
    decreases new,
{
    match new {
        ConfigurationResult::Value(v) => cur is Value && res is Value && res->Value_0@ == v@,
        ConfigurationResult::Array(na) => match (cur, res) {
            (ConfigurationResult::Array(ca), ConfigurationResult::Array(ra)) => {
                &&& na@.len() <= ca@.len()
                &&& ra@.len() == ca@.len()
                &&& forall|i: int| 0 <= i < na@.len() ==> overlaid(ca@[i], #[trigger] na@[i], ra@[i])
                &&& forall|i: int| na@.len() <= i < ca@.len() ==> #[trigger] ra@[i] == ca@[i]
            },
            _ => false,
        },
        ConfigurationResult::Mapping(nm) => match (cur, res) {
            (ConfigurationResult::Mapping(cm), ConfigurationResult::Mapping(rm)) => {
                &&& distinct_names(nm@)
                &&& rm@.len() == cm@.len()
                &&& forall|j: int| 0 <= j < cm@.len() ==> #[trigger] rm@[j].0 == cm@[j].0
                &&& forall|k: int|
                    0 <= k < nm@.len() ==> has_name(cm@, #[trigger] nm@[k].0@) && overlaid(
                        cm@[first_index(cm@, nm@[k].0@)].1,
                        nm@[k].1,
                        rm@[first_index(cm@, nm@[k].0@)].1,
                    )
                &&& forall|j: int|
                    0 <= j < cm@.len() && (forall|k: int|
                        0 <= k < nm@.len() ==> !is_first_name(cm@, #[trigger] nm@[k].0@, j))
                        ==> #[trigger] rm@[j].1 == cm@[j].1
            },
            _ => false,
        },
    }
}

/// The first entry of `entries` named `name`, if any.
fn find_name(entries: &Vec<(String, ConfigurationResult)>, name: &String) -> (r: Option<usize>)
    ensures
        match r {
            Some(j) => is_first_name(entries@, name@, j as int),
            None => forall|j: int| 0 <= j < entries@.len() ==> entries@[j].0@ != name@,
        },
{
    let mut j: usize = 0;
    while j < entries.len()
        invariant
            j <= entries@.len(),
            forall|i: int| 0 <= i < j ==> entries@[i].0@ != name@,
        decreases entries@.len() - j,
    {
        if entries[j].0 == *name {
            return Some(j);
        }
        j = j + 1;
    }
    None
}

/// Whether an entry before the `k`-th shares its name.
fn named_before(entries: &Vec<(String, ConfigurationResult)>, k: usize) -> (r: bool)
    requires
        k < entries@.len(),
    ensures
        r <==> exists|i: int| 0 <= i < k && entries@[i].0@ == entries@[k as int].0@,
{
    let mut i: usize = 0;
    while i < k
        invariant
            i <= k < entries@.len(),
            forall|m: int| 0 <= m < i ==> entries@[m].0@ != entries@[k as int].0@,
        decreases k - i,
    {
        if entries[i].0 == entries[k].0 {
            return true;
        }
        i = i + 1;
    }
    false
}

/// Writes the overrides `new` onto `cur` in place, leaf by leaf. Reports whether they fit;
/// where they do not, `cur` may hold part of them and is to be dropped.
pub fn apply_overrides(cur: &mut ConfigurationResult, new: &ConfigurationResult) -> (ok: bool)
    ensures
        ok == fits(*old(cur), *new),
        ok ==> overlaid(*old(cur), *new, *final(cur)),
    decreases new,
{
    let mut taken = ConfigurationResult::Value(String::new());
    std::mem::swap(cur, &mut taken);
    match new {
        ConfigurationResult::Value(v) => match taken {
            ConfigurationResult::Value(_) => {
                *cur = ConfigurationResult::Value(v.clone());
                true
            },
            other => {
                *cur = other;
                false
            },
        },
        ConfigurationResult::Array(na) => match taken {
            ConfigurationResult::Array(mut ca) => {
                let fitted = apply_positions(&mut ca, na);
                *cur = ConfigurationResult::Array(ca);
                fitted
            },
            other => {
                *cur = other;
                false
            },
        },
        ConfigurationResult::Mapping(nm) => match taken {
            ConfigurationResult::Mapping(mut cm) => {
                let fitted = apply_names(&mut cm, nm);
                *cur = ConfigurationResult::Mapping(cm);
                fitted
            },
            other => {
                *cur = other;
                false
            },
        },
    }
}

/// Writes `na[i]` onto `ca[i]` for each position `i` of `na`.
fn apply_positions(ca: &mut Vec<ConfigurationResult>, na: &Vec<ConfigurationResult>) -> (ok: bool)
    ensures
        ok == (na@.len() <= old(ca)@.len() && forall|i: int|
            0 <= i < na@.len() ==> fits(old(ca)@[i], #[trigger] na@[i])),
        ok ==> {
            &&& final(ca)@.len() == old(ca)@.len()
            &&& forall|i: int|
                0 <= i < na@.len() ==> overlaid(old(ca)@[i], #[trigger] na@[i], final(ca)@[i])
            &&& forall|i: int| na@.len() <= i < old(ca)@.len() ==> #[trigger] final(ca)@[i] == old(ca)@[i]
        },
    decreases na,
{
    if na.len() > ca.len() {
        return false;
    }
    let ghost before = ca@;
    let mut i: usize = 0;
    while i < na.len()
        invariant
            before == old(ca)@,
            i <= na@.len() <= before.len(),
            ca@.len() == before.len(),
            forall|m: int| 0 <= m < i ==> fits(before[m], #[trigger] na@[m]),
            forall|m: int| 0 <= m < i ==> overlaid(before[m], #[trigger] na@[m], ca@[m]),
            forall|m: int| i <= m < before.len() ==> #[trigger] ca@[m] == before[m],
        decreases na@.len() - i,
    {
        let ghost prev = ca@;
        let mut child = ca.remove(i);
        proof {
            assert(child == before[i as int]);
        }
        let fitted = apply_overrides(&mut child, &na[i]);
        ca.insert(i, child);
        proof {
            assert(ca@ == prev.update(i as int, child));
        }
        if !fitted {
            proof {
                assert(!fits(before[i as int], na@[i as int]));
            }
            return false;
        }
        i = i + 1;
    }
    true
}

/// Writes each named override of `nm` onto the first entry of `cm` with that name.
fn apply_names(cm: &mut Vec<(String, ConfigurationResult)>, nm: &Vec<(String, ConfigurationResult)>) -> (ok:
    bool)
    ensures
        ok == fits(ConfigurationResult::Mapping(*old(cm)), ConfigurationResult::Mapping(*nm)),
        ok ==> overlaid(
            ConfigurationResult::Mapping(*old(cm)),
            ConfigurationResult::Mapping(*nm),
            ConfigurationResult::Mapping(*final(cm)),
        ),
    decreases nm,
{
    let ghost before = cm@;
    let mut k: usize = 0;
    while k < nm.len()
        invariant
            before == old(cm)@,
            k <= nm@.len(),
            cm@.len() == before.len(),
            forall|j: int| 0 <= j < before.len() ==> #[trigger] cm@[j].0 == before[j].0,
            forall|a: int, b: int| 0 <= a < k && 0 <= b < k && a != b ==> nm@[a].0@ != nm@[b].0@,
            forall|m: int|
                0 <= m < k ==> has_name(before, #[trigger] nm@[m].0@) && fits(
                    before[first_index(before, nm@[m].0@)].1,
                    nm@[m].1,
                ) && overlaid(
                    before[first_index(before, nm@[m].0@)].1,
                    nm@[m].1,
                    cm@[first_index(before, nm@[m].0@)].1,
                ),
            forall|j: int|
                0 <= j < before.len() && (forall|m: int|
                    0 <= m < k ==> !is_first_name(before, #[trigger] nm@[m].0@, j))
                    ==> #[trigger] cm@[j].1 == before[j].1,
        decreases nm@.len() - k,
    {
        if named_before(nm, k) {
            proof {
                let i = choose|i: int| 0 <= i < k && nm@[i].0@ == nm@[k as int].0@;
                assert(!distinct_names(nm@)) by {
                    assert(nm@[i].0@ == nm@[k as int].0@);
                }
            }
            return false;
        }
        let found = find_name(cm, &nm[k].0);
        let j = match found {
            Some(j) => j,
            None => {
                proof {
                    assert forall|j: int| !is_first_name(before, nm@[k as int].0@, j) by {
                        if 0 <= j < before.len() {
                            assert(cm@[j].0 == before[j].0);
                        }
                    }
                    assert(!has_name(before, nm@[k as int].0@));
                }
                return false;
            },
        };
        proof {
            assert forall|i: int| 0 <= i < j implies before[i].0@ != nm@[k as int].0@ by {
                assert(cm@[i].0 == before[i].0);
            }
            assert(cm@[j as int].0 == before[j as int].0);
            assert(is_first_name(before, nm@[k as int].0@, j as int));
            lemma_first_index(before, nm@[k as int].0@, j as int);
            assert forall|m: int| 0 <= m < k implies !is_first_name(before, #[trigger] nm@[m].0@, j as int) by {
                assert(nm@[m].0@ != nm@[k as int].0@);
            }
        }
        let ghost prev = cm@;
        let (name, mut child) = cm.remove(j);
        proof {
            assert(child == before[j as int].1);
        }
        let fitted = apply_overrides(&mut child, &nm[k].1);
        cm.insert(j, (name, child));
        proof {
            assert(cm@ == prev.update(j as int, (name, child)));
        }
        if !fitted {
            return false;
        }
        proof {
            assert forall|a: int, b: int| 0 <= a < k + 1 && 0 <= b < k + 1 && a != b implies nm@[a].0@ != nm@[b].0@ by {
                if a == k {
                    assert(!(nm@[b].0@ == nm@[k as int].0@));
                } else if b == k {
                    assert(!(nm@[a].0@ == nm@[k as int].0@));
                }
            }
            assert forall|m: int| 0 <= m < k + 1 implies has_name(before, #[trigger] nm@[m].0@) && fits(
                before[first_index(before, nm@[m].0@)].1,
                nm@[m].1,
            ) && overlaid(
                before[first_index(before, nm@[m].0@)].1,
                nm@[m].1,
                cm@[first_index(before, nm@[m].0@)].1,
            ) by {
                if m < k {
                    let j2 = first_index(before, nm@[m].0@);
                    assert(is_first_name(before, nm@[m].0@, j2));
                    assert(j2 != j);
                    assert(cm@[j2] == prev[j2]);
                }
            }
            assert forall|j2: int|
                0 <= j2 < before.len() && (forall|m: int|
                    0 <= m < k + 1 ==> !is_first_name(before, #[trigger] nm@[m].0@, j2))
                    implies #[trigger] cm@[j2].1 == before[j2].1 by {
                if j2 == j {
                    assert(!is_first_name(before, nm@[k as int].0@, j as int));
                } else {
                    assert(cm@[j2] == prev[j2]);
                }
            }
        }
        k = k + 1;
    }
    true
}

/// `a` and `b` have the same arrays, maps and names, whatever their leaves hold.
pub open spec fn same_shape(a: ConfigurationResult, b: ConfigurationResult) -> bool
    decreases a,
{
    match a {
        ConfigurationResult::Value(_) => b is Value,
        ConfigurationResult::Array(xs) => match b {
            ConfigurationResult::Array(ys) => xs@.len() == ys@.len() && forall|i: int|
                0 <= i < xs@.len() ==> same_shape(#[trigger] xs@[i], ys@[i]),
            _ => false,
        },
        ConfigurationResult::Mapping(xs) => match b {
            ConfigurationResult::Mapping(ys) => xs@.len() == ys@.len() && forall|i: int|
                0 <= i < xs@.len() ==> xs@[i].0@ == ys@[i].0@ && same_shape(#[trigger] xs@[i].1, ys@[i].1),
            _ => false,
        },
    }
}

/// Reading `res` where `new` has a leaf gives that leaf's value: by position in arrays, by
/// name (its first entry) in maps.
pub open spec fn leaves_match(new: ConfigurationResult, res: ConfigurationResult) -> bool
    decreases new,
{
    match new {
        ConfigurationResult::Value(v) => res is Value && res->Value_0@ == v@,
        ConfigurationResult::Array(na) => match res {
            ConfigurationResult::Array(ra) => na@.len() <= ra@.len() && forall|i: int|
                0 <= i < na@.len() ==> leaves_match(#[trigger] na@[i], ra@[i]),
            _ => false,
        },
        ConfigurationResult::Mapping(nm) => match res {
            ConfigurationResult::Mapping(rm) => forall|k: int|
                0 <= k < nm@.len() ==> has_name(rm@, #[trigger] nm@[k].0@) && leaves_match(
                    nm@[k].1,
                    rm@[first_index(rm@, nm@[k].0@)].1,
                ),
            _ => false,
        },
    }
}

/// Every tree has its own shape.
pub proof fn lemma_same_shape_refl(t: ConfigurationResult)
    ensures
        same_shape(t, t),
    decreases t,
{
    match t {
        ConfigurationResult::Value(_) => {},
        ConfigurationResult::Array(xs) => {
            assert forall|i: int| 0 <= i < xs@.len() implies same_shape(#[trigger] xs@[i], xs@[i]) by {
                lemma_same_shape_refl(xs@[i]);
            }
        },
        ConfigurationResult::Mapping(xs) => {
            assert forall|i: int| 0 <= i < xs@.len() implies xs@[i].0@ == xs@[i].0@ && same_shape(
                #[trigger] xs@[i].1,
                xs@[i].1,
            ) by {
                lemma_same_shape_refl(xs@[i].1);
            }
        },
    }
}

/// Writing a tree of overrides and reading the configuration back: each leaf of the
/// overrides reads back exactly as written, and the arrays, maps and names of the
/// configuration are as they were.
pub proof fn lemma_overrides_read_back(
    cur: ConfigurationResult,
    new: ConfigurationResult,
    res: ConfigurationResult,
)
    requires
        overlaid(cur, new, res),
    ensures
        same_shape(cur, res),
        leaves_match(new, res),
    decreases new,
{
    match new {
        ConfigurationResult::Value(_) => {},
        ConfigurationResult::Array(na) => {
            let ca = cur->Array_0;
            let ra = res->Array_0;
            assert forall|i: int| 0 <= i < ca@.len() implies same_shape(#[trigger] ca@[i], ra@[i]) by {
                if i < na@.len() {
                    lemma_overrides_read_back(ca@[i], na@[i], ra@[i]);
                } else {
                    lemma_same_shape_refl(ca@[i]);
                }
            }
            assert forall|i: int| 0 <= i < na@.len() implies leaves_match(#[trigger] na@[i], ra@[i]) by {
                lemma_overrides_read_back(ca@[i], na@[i], ra@[i]);
            }
        },
        ConfigurationResult::Mapping(nm) => {
            let cm = cur->Mapping_0;
            let rm = res->Mapping_0;
            assert forall|j: int| 0 <= j < cm@.len() implies cm@[j].0@ == rm@[j].0@ && same_shape(
                #[trigger] cm@[j].1,
                rm@[j].1,
            ) by {
                assert(rm@[j].0 == cm@[j].0);
                if exists|k: int| 0 <= k < nm@.len() && is_first_name(cm@, #[trigger] nm@[k].0@, j) {
                    let k = choose|k: int| 0 <= k < nm@.len() && is_first_name(cm@, #[trigger] nm@[k].0@, j);
                    lemma_first_index(cm@, nm@[k].0@, j);
                    lemma_overrides_read_back(cm@[j].1, nm@[k].1, rm@[j].1);
                } else {
                    lemma_same_shape_refl(cm@[j].1);
                }
            }
            assert forall|k: int| 0 <= k < nm@.len() implies has_name(rm@, #[trigger] nm@[k].0@)
                && leaves_match(nm@[k].1, rm@[first_index(rm@, nm@[k].0@)].1) by {
                let name = nm@[k].0@;
                let j = first_index(cm@, name);
                assert(is_first_name(cm@, name, j));
                assert forall|i: int| 0 <= i <= j implies rm@[i].0@ == cm@[i].0@ by {
                    assert(rm@[i].0 == cm@[i].0);
                }
                assert(is_first_name(rm@, name, j));
                lemma_first_index(rm@, name, j);
                lemma_overrides_read_back(cm@[j].1, nm@[k].1, rm@[j].1);
            }
        },
    }
}

} // verus!
