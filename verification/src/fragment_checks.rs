//! Equivalence of schema fragments.
use crate::atom::Atom;
use crate::decl_checks::is_trivial_namespace;
use crate::equiv::Equiv;
use crate::model::{fragment_equiv, is_trivial, namespace_equiv, nontrivial_names};
use crate::names::TypeName;
use crate::schema::{Fragment, NamespaceDefinition};
use crate::text::concat3;
use vstd::prelude::*;
use vstd::string::*;

verus! {

/// The positions, among the first `i` entries of `frag`, of the namespaces
/// that declare something, in rising order.
pub open spec fn kept<N: TypeName>(frag: &Fragment<N>, i: int) -> Seq<int>
    decreases i,
{
    if i <= 0 {
        Seq::empty()
    } else if !is_trivial(frag.0.values()[i - 1]@) {
        kept(frag, i - 1).push(i - 1)
    } else {
        kept(frag, i - 1)
    }
}

/// The names of the namespaces at the positions `kept(frag, i)`.
pub open spec fn kept_names<N: TypeName>(frag: &Fragment<N>, i: int) -> Set<Option<Seq<char>>> {
    Set::new(
        |n: Option<Seq<char>>|
            exists|k: int| 0 <= k < kept(frag, i).len() && frag.0.keys()[#[trigger] kept(frag, i)[k]] == n,
    )
}

/// `kept(frag, i)` holds exactly the positions below `i` whose namespace
/// declares something, and as many positions as these namespaces have names.
pub proof fn lemma_kept<N: TypeName>(frag: &Fragment<N>, i: int)
    requires
        0 <= i <= frag.0.keys().len(),
        frag.0.keys_distinct(),
    ensures
        forall|k: int|
            0 <= k < kept(frag, i).len() ==> 0 <= (#[trigger] kept(frag, i)[k]) < i && !is_trivial(
                frag.0.values()[kept(frag, i)[k]]@,
            ),
        forall|j: int|
            0 <= j < i && !is_trivial((#[trigger] frag.0.values()[j])@) ==> kept(frag, i).contains(
                j,
            ),
        kept_names(frag, i).finite(),
        kept_names(frag, i).len() == kept(frag, i).len(),
    decreases i,
{
    if i > 0 {
        lemma_kept(frag, i - 1);
        let shorter = kept(frag, i - 1);
        let longer = kept(frag, i);
        if !is_trivial(frag.0.values()[i - 1]@) {
            let key = frag.0.keys()[i - 1];
            assert(longer[shorter.len() as int] == i - 1);
            assert forall|j: int|
                0 <= j < i && !is_trivial((#[trigger] frag.0.values()[j])@) implies longer.contains(
                j,
            ) by {
                if j < i - 1 {
                    let k = choose|k: int| 0 <= k < shorter.len() && shorter[k] == j;
                    assert(longer[k] == j);
                }
            }
            assert(!kept_names(frag, i - 1).contains(key)) by {
                if kept_names(frag, i - 1).contains(key) {
                    let k = choose|k: int|
                        0 <= k < shorter.len() && frag.0.keys()[#[trigger] shorter[k]] == key;
                    assert(shorter[k] < i - 1);
                }
            }
            assert(kept_names(frag, i) =~= kept_names(frag, i - 1).insert(key)) by {
                assert forall|x: Option<Seq<char>>| kept_names(frag, i).contains(
                    x,
                ) implies kept_names(frag, i - 1).insert(key).contains(x) by {
                    let k = choose|k: int|
                        0 <= k < longer.len() && frag.0.keys()[#[trigger] longer[k]] == x;
                    if k < shorter.len() {
                        assert(shorter[k] == longer[k]);
                    }
                }
                assert forall|x: Option<Seq<char>>| kept_names(frag, i - 1).insert(key).contains(
                    x,
                ) implies kept_names(frag, i).contains(x) by {
                    if x == key {
                        assert(frag.0.keys()[longer[shorter.len() as int]] == x);
                    } else {
                        let k = choose|k: int|
                            0 <= k < shorter.len() && frag.0.keys()[#[trigger] shorter[k]] == x;
                        assert(longer[k] == shorter[k]);
                    }
                }
            }
        }
    } else {
        assert(kept_names(frag, i) =~= Set::empty());
    }
}

/// The names at the kept positions of the whole fragment are the names of
/// its namespaces that declare something.
pub proof fn lemma_kept_all<N: TypeName>(frag: &Fragment<N>)
    requires
        frag.0.keys_distinct(),
    ensures
        kept_names(frag, frag.0.keys().len() as int) == nontrivial_names(frag@),
{
    let n = frag.0.keys().len() as int;
    lemma_kept(frag, n);
    assert(kept_names(frag, n) =~= nontrivial_names(frag@)) by {
        assert forall|x: Option<Seq<char>>| kept_names(frag, n).contains(
            x,
        ) implies nontrivial_names(frag@).contains(x) by {
            let k = choose|k: int|
                0 <= k < kept(frag, n).len() && frag.0.keys()[#[trigger] kept(frag, n)[k]] == x;
            frag.0.lemma_entry(kept(frag, n)[k]);
        }
        assert forall|x: Option<Seq<char>>| nontrivial_names(frag@).contains(
            x,
        ) implies kept_names(frag, n).contains(x) by {
            let j = frag.0.lemma_position(x);
            assert(!is_trivial(frag.0.values()[j]@));
            assert(kept(frag, n).contains(j));
            let k = choose|k: int| 0 <= k < kept(frag, n).len() && kept(frag, n)[k] == j;
            assert(frag.0.keys()[kept(frag, n)[k]] == x);
        }
    }
}

/// The namespaces of `frag` that declare something, each with its name, in
/// the order of the fragment.
pub fn nontrivial_namespaces<'a, N: TypeName>(frag: &'a Fragment<N>) -> (out: Vec<
    (&'a Option<String>, &'a NamespaceDefinition<N>),
>)
    ensures
        out@.len() == nontrivial_names(frag@).len(),
        out@.len() == kept(frag, frag.0.keys().len() as int).len(),
        forall|k: int|
            0 <= k < out@.len() ==> (#[trigger] out@[k]).0.id() == frag.0.keys()[kept(
                frag,
                frag.0.keys().len() as int,
            )[k]] && *out@[k].1 == frag.0.values()[kept(frag, frag.0.keys().len() as int)[k]],
        forall|k: int|
            0 <= k < out@.len() ==> nontrivial_names(frag@).contains((#[trigger] out@[k]).0.id())
                && out@[k].1@ == frag@[out@[k].0.id()],
        forall|n: Option<Seq<char>>|
            nontrivial_names(frag@).contains(n) ==> exists|k: int|
                0 <= k < out@.len() && (#[trigger] out@[k]).0.id() == n,
{
    let mut out: Vec<(&'a Option<String>, &'a NamespaceDefinition<N>)> = Vec::new();
    let n = frag.0.len();
    let mut i: usize = 0;
    proof {
        }
    while i < n
        invariant
            i <= n,
            n == frag.0.keys().len(),
            n == frag.0.values().len(),
            out@.len() == kept(frag, i as int).len(),
            forall|k: int|
                0 <= k < out@.len() ==> (#[trigger] out@[k]).0.id() == frag.0.keys()[kept(
                    frag,
                    i as int,
                )[k]] && *out@[k].1 == frag.0.values()[kept(frag, i as int)[k]],
        decreases n - i,
    {
        let name = frag.0.key_at(i);
        let ns = frag.0.value_at(i);
        if !is_trivial_namespace(ns) {
            out.push((name, ns));
        }
        i += 1;
    }
    proof {
        use_type_invariant(&frag.0);
        lemma_kept(frag, n as int);
        lemma_kept_all(frag);
        let all = kept(frag, n as int);
        assert forall|k: int| 0 <= k < out@.len() implies nontrivial_names(frag@).contains(
            (#[trigger] out@[k]).0.id(),
        ) && out@[k].1@ == frag@[out@[k].0.id()] by {
            frag.0.lemma_entry(all[k]);
            assert(kept_names(frag, n as int).contains(frag.0.keys()[all[k]]));
        }
        assert forall|x: Option<Seq<char>>| nontrivial_names(frag@).contains(
            x,
        ) implies exists|k: int| 0 <= k < out@.len() && (#[trigger] out@[k]).0.id() == x by {
            let k = choose|k: int| 0 <= k < all.len() && frag.0.keys()[#[trigger] all[k]] == x;
            assert(out@[k].0.id() == x);
        }
    }
    out
}

/// The diagnosis of the first namespace of `lhs`, from position `i` on, that
/// declares something and has no equivalent namespace of its name in `rhs`:
/// that `rhs` has no namespace of that name, or the diagnosis of the two
/// namespaces.
pub open spec fn first_namespace_diagnosis<N: TypeName>(
    lhs: &Fragment<N>,
    rhs: &Fragment<N>,
    i: int,
) -> Seq<char>
    decreases lhs.0.entries().len() - i,
{
    if 0 <= i < lhs.0.entries().len() {
        let entry = lhs.0.entries()[i];
        if is_trivial(entry.1@) {
            first_namespace_diagnosis(lhs, rhs, i + 1)
        } else if !rhs.0@.dom().contains(entry.0.id()) {
            "namespace `"@ + entry.0.text() + "` does not exist in RHS schema"@
        } else if !namespace_equiv(entry.1@, rhs.0@[entry.0.id()]@) {
            NamespaceDefinition::diagnosis(&entry.1, &rhs.0@[entry.0.id()])
        } else {
            first_namespace_diagnosis(lhs, rhs, i + 1)
        }
    } else {
        Seq::empty()
    }
}

/// What [`equivalence_check`] says of two fragments that are not
/// equivalent: that the numbers of their namespaces differ, or the diagnosis
/// of the first namespace of the left fragment that has no equivalent.
pub open spec fn fragment_diagnosis<N: TypeName>(lhs: &Fragment<N>, rhs: &Fragment<N>) -> Seq<char> {
    if nontrivial_names(lhs@).len() != nontrivial_names(rhs@).len() {
        "schemas differ in number of namespaces"@
    } else {
        first_namespace_diagnosis(lhs, rhs, 0)
    }
}

/// Decides [`fragment_equiv`].
///
/// Namespaces that declare nothing are left aside on both sides. If the
/// numbers of the namespaces that remain differ, the fragments are not
/// equivalent. Else every namespace that remains on the left must have an
/// equivalent namespace of the same name on the right; the diagnostic is
/// that of the first namespace for which this fails.
pub fn equivalence_check<N: TypeName>(lhs: &Fragment<N>, rhs: &Fragment<N>) -> (res: Result<
    (),
    String,
>)
    ensures
        res is Ok <==> fragment_equiv(lhs@, rhs@),
        res matches Err(message) ==> message@ == fragment_diagnosis(lhs, rhs),
{
    let left = nontrivial_namespaces(lhs);
    let right = nontrivial_namespaces(rhs);
    if left.len() != right.len() {
        return Err(String::from_str("schemas differ in number of namespaces"));
    }
    let n = lhs.0.len();
    let mut i: usize = 0;
    while i < n
        invariant
            i <= n,
            n == lhs.0.entries().len(),
            nontrivial_names(lhs@).len() == nontrivial_names(rhs@).len(),
            first_namespace_diagnosis(lhs, rhs, 0) == first_namespace_diagnosis(lhs, rhs, i as int),
            forall|k: int|
                0 <= k < i && !is_trivial((#[trigger] lhs.0.entries()[k]).1@) ==> rhs@.dom().contains(
                    lhs.0.entries()[k].0.id(),
                ) && namespace_equiv(lhs.0.entries()[k].1@, rhs@[lhs.0.entries()[k].0.id()]),
        decreases n - i,
    {
        let name = lhs.0.key_at(i);
        let ns = lhs.0.value_at(i);
        if !is_trivial_namespace(ns) {
            let checked = match rhs.0.get(name) {
                Some(other) => NamespaceDefinition::equiv(ns, other),
                None => Err(
                    concat3(
                        "namespace `",
                        name.render().as_str(),
                        "` does not exist in RHS schema",
                    ),
                ),
            };
            match checked {
                Ok(()) => {},
                Err(e) => {
                    proof {
                        use_type_invariant(&lhs.0);
                        lhs.0.lemma_entry(i as int);
                        assert(nontrivial_names(lhs@).contains(name.id()));
                    }
                    return Err(e);
                },
            }
        }
        i += 1;
    }
    proof {
        assert forall|x: Option<Seq<char>>| nontrivial_names(lhs@).contains(
            x,
        ) implies rhs@.dom().contains(x) && namespace_equiv(lhs@[x], rhs@[x]) by {
            let p = lhs.0.lemma_position(x);
            assert(lhs.0.keys()[p] == x);
            assert(!is_trivial(lhs.0.entries()[p].1@));
        }
    }
    Ok(())
}

impl<N: TypeName> Equiv for Fragment<N> {
    open spec fn equivalent(lhs: &Self, rhs: &Self) -> bool {
        fragment_equiv(lhs@, rhs@)
    }

    open spec fn diagnosis(lhs: &Self, rhs: &Self) -> Seq<char> {
        fragment_diagnosis(lhs, rhs)
    }

    fn equiv(lhs: &Self, rhs: &Self) -> (res: Result<(), String>)
        ensures
            res is Ok <==> fragment_equiv(lhs@, rhs@),
            res matches Err(message) ==> message@ == Self::diagnosis(lhs, rhs),
    {
        equivalence_check(lhs, rhs)
    }
}

} // verus!
