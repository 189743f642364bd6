//! Operations on the resource-name list of a catalog document.
//!
//! A catalog document holds a list of resource names; the list is a set:
//! duplicates are forbidden and order carries no meaning. Contracts speak of
//! `name_set`, the set of character strings the list holds.

use vstd::prelude::*;

verus! {

/// The mathematical view of a list of names: the set of their strings.
pub open spec fn name_set(l: Seq<String>) -> Set<Seq<char>> {
    l.map_values(|s: String| s@).to_set()
}

/// No two entries of the list carry the same name.
pub open spec fn distinct_names(l: Seq<String>) -> bool {
    forall|i: int, j: int| 0 <= i < j < l.len() ==> l[i]@ != l[j]@
}

/// Membership in `name_set` is membership at some index.
pub proof fn lemma_name_set(l: Seq<String>, x: Seq<char>)
    ensures
        name_set(l).contains(x) <==> exists|i: int| 0 <= i < l.len() && l[i]@ == x,
{
    let names = l.map_values(|s: String| s@);
    if name_set(l).contains(x) {
        let i = choose|i: int| 0 <= i < names.len() && names[i] == x;
        assert(l[i]@ == x);
    }
    if exists|i: int| 0 <= i < l.len() && l[i]@ == x {
        let i = choose|i: int| 0 <= i < l.len() && l[i]@ == x;
        assert(names[i] == x);
        assert(names.contains(x));
    }
}

/// A copy of the list, name for name.
pub fn clone_names(list: &Vec<String>) -> (r: Vec<String>)
    ensures
        r@ == list@,
{
    let mut r: Vec<String> = Vec::new();
    let mut k: usize = 0;
    while k < list.len()
        invariant
            k <= list@.len(),
            r@ == list@.take(k as int),
        decreases list@.len() - k,
    {
        r.push(list[k].clone());
        proof {
            assert(r@ =~= list@.take(k + 1));
        }
        k = k + 1;
    }
    proof {
        assert(list@.take(list@.len() as int) =~= list@);
    }
    r
}

/// Whether the list holds `name`.
pub fn contains_name(list: &Vec<String>, name: &String) -> (r: bool)
    ensures
        r == name_set(list@).contains(name@),
{
    let mut k: usize = 0;
    while k < list.len()
        invariant
            k <= list@.len(),
            forall|j: int| 0 <= j < k ==> list@[j]@ != name@,
        decreases list@.len() - k,
    {
        if list[k].eq(name) {
            proof {
                lemma_name_set(list@, name@);
            }
            return true;
        }
        k = k + 1;
    }
    proof {
        lemma_name_set(list@, name@);
    }
    false
}

/// Adds `name` to the list unless it is already there: afterwards the list
/// holds exactly the old names and `name`, still without duplicates.
pub fn insert_name(list: &mut Vec<String>, name: String)
    requires
        distinct_names(old(list)@),
    ensures
        distinct_names(final(list)@),
        name_set(final(list)@) == name_set(old(list)@).insert(name@),
{
    let present = contains_name(list, &name);
    if !present {
        proof {
            lemma_name_set(list@, name@);
        }
        list.push(name);
        proof {
            let l0 = old(list)@;
            assert forall|x: Seq<char>|
                name_set(list@).contains(x) == name_set(l0).insert(name@).contains(x) by {
                lemma_name_set(list@, x);
                lemma_name_set(l0, x);
                if name_set(list@).contains(x) {
                    let i = choose|i: int| 0 <= i < list@.len() && list@[i]@ == x;
                    if i < l0.len() {
                        assert(l0[i]@ == x);
                    }
                }
                if name_set(l0).contains(x) {
                    let i = choose|i: int| 0 <= i < l0.len() && l0[i]@ == x;
                    assert(list@[i]@ == x);
                }
                if x == name@ {
                    assert(list@[l0.len() as int]@ == x);
                }
            }
            assert(name_set(list@) =~= name_set(l0).insert(name@));
        }
    } else {
        proof {
            assert(name_set(list@) =~= name_set(list@).insert(name@));
        }
    }
}

/// Removes `name` from the list: afterwards the list holds exactly the old
/// names without `name`, still without duplicates.
pub fn remove_name(list: &mut Vec<String>, name: &String)
    requires
        distinct_names(old(list)@),
    ensures
        distinct_names(final(list)@),
        name_set(final(list)@) == name_set(old(list)@).remove(name@),
{
    let mut out: Vec<String> = Vec::new();
    let mut k: usize = 0;
    while k < list.len()
        invariant
            k <= list@.len(),
            list@ == old(list)@,
            distinct_names(list@),
            distinct_names(out@),
            forall|j2: int|
                0 <= j2 < out@.len() ==> out@[j2]@ != name@ && exists|j: int|
                    0 <= j < k && list@[j]@ == #[trigger] out@[j2]@,
            forall|j: int|
                0 <= j < k && list@[j]@ != name@ ==> name_set(out@).contains(#[trigger] list@[j]@),
        decreases list@.len() - k,
    {
        let keep = !list[k].eq(name);
        if keep {
            let ghost out0 = out@;
            out.push(list[k].clone());
            proof {
                assert(out@[out0.len() as int]@ == list@[k as int]@);
                assert forall|j2: int| 0 <= j2 < out0.len() implies out@[j2]@ != list@[k as int]@ by {
                    assert(out0[j2]@ != name@);
                    assert(exists|j: int| 0 <= j < k && list@[j]@ == out0[j2]@);
                    let j = choose|j: int| 0 <= j < k && list@[j]@ == out0[j2]@;
                    assert(0 <= j < k < list@.len());
                    assert(list@[j]@ != list@[k as int]@);
                    assert(out@[j2]@ == out0[j2]@);
                }
                assert forall|j: int| 0 <= j < k + 1 && list@[j]@ != name@ implies name_set(
                    out@,
                ).contains(#[trigger] list@[j]@) by {
                    lemma_name_set(out@, list@[j]@);
                    lemma_name_set(out0, list@[j]@);
                    if j < k {
                        let j2 = choose|j2: int| 0 <= j2 < out0.len() && out0[j2]@ == list@[j]@;
                        assert(out@[j2]@ == list@[j]@);
                    } else {
                        assert(out@[out0.len() as int]@ == list@[j]@);
                    }
                }
            }
        }
        k = k + 1;
    }
    proof {
        let l0 = old(list)@;
        assert forall|x: Seq<char>|
            name_set(out@).contains(x) == name_set(l0).remove(name@).contains(x) by {
            lemma_name_set(out@, x);
            lemma_name_set(l0, x);
            if name_set(out@).contains(x) {
                let j2 = choose|j2: int| 0 <= j2 < out@.len() && out@[j2]@ == x;
                let j = choose|j: int| 0 <= j < l0.len() && l0[j]@ == out@[j2]@;
                assert(l0[j]@ == x);
            }
            if name_set(l0).remove(name@).contains(x) {
                let j = choose|j: int| 0 <= j < l0.len() && l0[j]@ == x;
                assert(name_set(out@).contains(l0[j]@));
            }
        }
        assert(name_set(out@) =~= name_set(l0).remove(name@));
    }
    *list = out;
}

} // verus!
