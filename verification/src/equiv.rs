//! The equivalence checks of the containers and of annotations.
//!
//! Each check returns `Ok(())` exactly when its two arguments are
//! equivalent, and otherwise exactly the text that its diagnosis states.
use crate::assoc::AssocMap;
use crate::atom::Atom;
use crate::model::{annotation_value_equiv, annotations_equiv, NameView};
use crate::names::{name_set, name_text, InternalName, TypeName};
use crate::schema::{annotation_view, Annotation, Annotations};
use crate::text::{concat2, concat3, join, joined, texts};
use vstd::prelude::*;
use vstd::string::*;

verus! {

/// Types whose values can be compared for equivalence.
pub trait Equiv {
    /// The relation that [`Equiv::equiv`] decides.
    spec fn equivalent(lhs: &Self, rhs: &Self) -> bool;

    /// What [`Equiv::equiv`] says of two values that are not equivalent.
    spec fn diagnosis(lhs: &Self, rhs: &Self) -> Seq<char>;

    /// `Ok(())` if `lhs` and `rhs` are equivalent, else the diagnosis.
    fn equiv(lhs: &Self, rhs: &Self) -> (res: Result<(), String>)
        ensures
            res is Ok <==> Self::equivalent(lhs, rhs),
            res matches Err(message) ==> message@ == Self::diagnosis(lhs, rhs),
    ;
}

impl<T: Equiv> Equiv for &T {
    open spec fn equivalent(lhs: &Self, rhs: &Self) -> bool {
        T::equivalent(*lhs, *rhs)
    }

    open spec fn diagnosis(lhs: &Self, rhs: &Self) -> Seq<char> {
        T::diagnosis(*lhs, *rhs)
    }

    fn equiv(lhs: &Self, rhs: &Self) -> (res: Result<(), String>)
        ensures
            res is Ok <==> T::equivalent(*lhs, *rhs),
            res matches Err(message) ==> message@ == Self::diagnosis(lhs, rhs),
    {
        T::equiv(*lhs, *rhs)
    }
}

/// Puts `context` in front of the diagnostic of a failed check.
pub fn with_context(context: &str, checked: Result<(), String>) -> (res: Result<(), String>)
    ensures
        res is Ok <==> checked is Ok,
        checked matches Err(inner) ==> res matches Err(message) && message@ == context@ + inner@,
{
    match checked {
        Ok(()) => Ok(()),
        Err(inner) => Err(concat2(context, inner.as_str())),
    }
}

/// The identities of a list of atoms, read as a set.
pub open spec fn atom_set<T: Atom>(items: Seq<T>) -> Set<T::Id> {
    items.map_values(|t: T| t.id()).to_set()
}

/// Each atom of a list as its identity and its text.
pub open spec fn labels<T: Atom>(items: Seq<T>) -> Seq<(T::Id, Seq<char>)> {
    items.map_values(|t: T| (t.id(), t.text()))
}

/// Each name of a list as its qualified form and the text of that form.
pub open spec fn name_labels<N: TypeName>(names: Seq<N>) -> Seq<(NameView, Seq<char>)> {
    names.map_values(|n: N| (n.qualified(), name_text(n.qualified())))
}

/// The identities of a list of labelled items, read as a set.
pub open spec fn label_ids<I>(items: Seq<(I, Seq<char>)>) -> Set<I> {
    items.map_values(|p: (I, Seq<char>)| p.0).to_set()
}

/// The texts of the items whose identity is not in `other`, in the order of
/// the list, each identity once.
pub open spec fn lacking_texts<I>(items: Seq<(I, Seq<char>)>, other: Set<I>) -> Seq<Seq<char>>
    decreases items.len(),
{
    if items.len() == 0 {
        Seq::empty()
    } else {
        let rest = lacking_texts(items.drop_last(), other);
        let last = items.last();
        if !other.contains(last.0) && !label_ids(items.drop_last()).contains(last.0) {
            rest.push(last.1)
        } else {
            rest
        }
    }
}

/// The diagnosis of two lists that differ as sets: the items that only the
/// left list has, then those that only the right list has.
pub open spec fn set_diagnosis<I>(lhs: Seq<(I, Seq<char>)>, rhs: Seq<(I, Seq<char>)>) -> Seq<char> {
    "missing set elements: "@ + joined(
        lacking_texts(lhs, label_ids(rhs)) + lacking_texts(rhs, label_ids(lhs)),
        ", "@,
    )
}

/// Nothing is lacking exactly when every identity of the list is in `other`.
pub proof fn lemma_lacking_none<I>(items: Seq<(I, Seq<char>)>, other: Set<I>)
    ensures
        lacking_texts(items, other).len() == 0 <==> label_ids(items).subset_of(other),
    decreases items.len(),
{
    let ids = items.map_values(|p: (I, Seq<char>)| p.0);
    if items.len() == 0 {
        assert(label_ids(items) =~= Set::empty());
    } else {
        let shorter = items.drop_last();
        let short_ids = shorter.map_values(|p: (I, Seq<char>)| p.0);
        lemma_lacking_none(shorter, other);
        let last = items.last();
        assert(ids[items.len() - 1] == last.0);
        assert forall|x: I| label_ids(shorter).contains(x) implies label_ids(items).contains(
            x,
        ) by {
            let k = choose|k: int| 0 <= k < short_ids.len() && short_ids[k] == x;
            assert(ids[k] == x);
        }
        if lacking_texts(items, other).len() == 0 {
            assert forall|x: I| label_ids(items).contains(x) implies other.contains(x) by {
                let k = choose|k: int| 0 <= k < ids.len() && ids[k] == x;
                if k < shorter.len() {
                    assert(short_ids[k] == x);
                }
            }
        } else {
            if lacking_texts(shorter, other).len() == 0 {
                assert(label_ids(items).contains(last.0));
            }
        }
    }
}

/// An item whose identity is not in `other` is listed among the lacking
/// texts: by its own text, or by that of an earlier item of its identity.
pub proof fn lemma_lacking_lists<I>(items: Seq<(I, Seq<char>)>, other: Set<I>, k: int) -> (j: int)
    requires
        0 <= k < items.len(),
        !other.contains(items[k].0),
    ensures
        0 <= j <= k,
        items[j].0 == items[k].0,
        lacking_texts(items, other).contains(items[j].1),
    decreases items.len(),
{
    let shorter = items.drop_last();
    let rest = lacking_texts(shorter, other);
    let last = items.last();
    let ids = shorter.map_values(|p: (I, Seq<char>)| p.0);
    if k < items.len() - 1 || label_ids(shorter).contains(last.0) {
        let earlier = if k < items.len() - 1 {
            k
        } else {
            choose|i: int| 0 <= i < ids.len() && ids[i] == last.0
        };
        assert(shorter[earlier] == items[earlier]);
        let j = lemma_lacking_lists(shorter, other, earlier);
        let at = choose|i: int| 0 <= i < rest.len() && rest[i] == items[j].1;
        assert(lacking_texts(items, other)[at] == items[j].1);
        j
    } else {
        assert(rest.push(last.1)[rest.len() as int] == last.1);
        k
    }
}

/// Every lacking text is the text of an item whose identity is not in
/// `other`.
pub proof fn lemma_lacking_only<I>(items: Seq<(I, Seq<char>)>, other: Set<I>, at: int) -> (k: int)
    requires
        0 <= at < lacking_texts(items, other).len(),
    ensures
        0 <= k < items.len(),
        items[k].1 == lacking_texts(items, other)[at],
        !other.contains(items[k].0),
    decreases items.len(),
{
    let shorter = items.drop_last();
    let rest = lacking_texts(shorter, other);
    if at < rest.len() {
        let k = lemma_lacking_only(shorter, other, at);
        assert(shorter[k] == items[k]);
        k
    } else {
        items.len() - 1
    }
}

/// The labels of atoms have the identities of the atoms.
pub proof fn lemma_label_ids<T: Atom>(items: Seq<T>)
    ensures
        label_ids(labels(items)) == atom_set(items),
{
    assert(labels(items).map_values(|p: (T::Id, Seq<char>)| p.0) =~= items.map_values(
        |t: T| t.id(),
    ));
}

/// Whether one of the first `upto` items of `items` has the identity of `x`.
pub fn occurs<T: Atom>(items: &Vec<T>, upto: usize, x: &T) -> (b: bool)
    requires
        upto <= items.len(),
    ensures
        b == atom_set(items@.take(upto as int)).contains(x.id()),
{
    let ghost ids = items@.take(upto as int).map_values(|t: T| t.id());
    let mut i: usize = 0;
    while i < upto
        invariant
            i <= upto <= items.len(),
            ids == items@.take(upto as int).map_values(|t: T| t.id()),
            forall|k: int| 0 <= k < i ==> ids[k] != x.id(),
        decreases upto - i,
    {
        if items[i].same(x) {
            assert(ids[i as int] == x.id());
            return true;
        }
        i += 1;
    }
    false
}

/// The texts of the items of `items` that `other` lacks, each identity once.
pub fn lacking<T: Atom>(items: &Vec<T>, other: &Vec<T>) -> (missing: Vec<String>)
    ensures
        texts(missing@) == lacking_texts(labels(items@), atom_set(other@)),
{
    let mut missing: Vec<String> = Vec::new();
    let mut i: usize = 0;
    assert(texts(missing@) =~= Seq::empty());
    while i < items.len()
        invariant
            i <= items.len(),
            texts(missing@) == lacking_texts(labels(items@.take(i as int)), atom_set(other@)),
        decreases items.len() - i,
    {
        let ghost before = labels(items@.take(i as int));
        let ghost after = labels(items@.take(i as int + 1));
        proof {
            assert(after.drop_last() =~= before);
            assert(after.last() == (items@[i as int].id(), items@[i as int].text()));
            lemma_label_ids(items@.take(i as int));
            assert(other@.take(other.len() as int) =~= other@);
        }
        let ghost old_missing = missing@;
        if !occurs(other, other.len(), &items[i]) && !occurs(items, i, &items[i]) {
            missing.push(items[i].render());
            assert(texts(missing@) =~= texts(old_missing).push(items@[i as int].text()));
        }
        i += 1;
    }
    assert(items@.take(items.len() as int) =~= items@);
    missing
}

/// Appends the strings of `more` to `out`.
pub fn append_all(out: &mut Vec<String>, more: Vec<String>)
    ensures
        final(out)@ == old(out)@ + more@,
        texts(final(out)@) == texts(old(out)@) + texts(more@),
{
    let mut more = more;
    let ghost added = more@;
    out.append(&mut more);
    assert(texts(out@) =~= texts(old(out)@) + texts(added));
}

/// Set equivalence: two lists are equivalent if every item of each has the
/// identity of an item of the other. The diagnostic lists the items that
/// only one of them has.
pub fn set_equiv<T: Atom>(lhs: &Vec<T>, rhs: &Vec<T>) -> (res: Result<(), String>)
    ensures
        res is Ok <==> atom_set(lhs@) == atom_set(rhs@),
        res matches Err(message) ==> message@ == set_diagnosis(labels(lhs@), labels(rhs@)),
{
    let mut missing = lacking(lhs, rhs);
    let more = lacking(rhs, lhs);
    append_all(&mut missing, more);
    proof {
        lemma_label_ids(lhs@);
        lemma_label_ids(rhs@);
        lemma_lacking_none(labels(lhs@), atom_set(rhs@));
        lemma_lacking_none(labels(rhs@), atom_set(lhs@));
    }
    if missing.len() == 0 {
        assert(atom_set(lhs@) =~= atom_set(rhs@));
        Ok(())
    } else {
        proof {
            reveal_strlit(", ");
        }
        Err(concat2("missing set elements: ", join(&missing, ", ").as_str()))
    }
}

/// A list that is read as a set: the order of its items and how often an
/// item occurs do not matter.
#[derive(Debug)]
pub struct ListSet<T>(pub Vec<T>);

impl<T: Atom> View for ListSet<T> {
    type V = Set<T::Id>;

    open spec fn view(&self) -> Set<T::Id> {
        atom_set(self.0@)
    }
}

impl<T: Atom> Equiv for ListSet<T> {
    /// The two lists hold the same items.
    open spec fn equivalent(lhs: &Self, rhs: &Self) -> bool {
        lhs@ == rhs@
    }

    /// The items that only the left list has, then those that only the
    /// right list has.
    open spec fn diagnosis(lhs: &Self, rhs: &Self) -> Seq<char> {
        set_diagnosis(labels(lhs.0@), labels(rhs.0@))
    }

    /// Set equivalence: items are compared by their identity.
    fn equiv(lhs: &Self, rhs: &Self) -> (res: Result<(), String>)
        ensures
            res is Ok <==> lhs@ == rhs@,
            res matches Err(message) ==> message@ == Self::diagnosis(lhs, rhs),
    {
        set_equiv(&lhs.0, &rhs.0)
    }
}

/// The qualified forms of a list of names.
pub fn qualify_all<N: TypeName>(names: &Vec<N>) -> (out: Vec<InternalName>)
    ensures
        out@.len() == names@.len(),
        forall|i: int| 0 <= i < names@.len() ==> out@[i]@ == names@[i].qualified(),
        atom_set(out@) == name_set(names@),
        labels(out@) == name_labels(names@),
{
    let mut out: Vec<InternalName> = Vec::new();
    let mut i: usize = 0;
    while i < names.len()
        invariant
            i <= names.len(),
            out@.len() == i,
            forall|k: int| 0 <= k < i ==> out@[k]@ == names@[k].qualified(),
        decreases names.len() - i,
    {
        out.push(names[i].qualify());
        i += 1;
    }
    assert(out@.map_values(|t: InternalName| t.id()) =~= names@.map_values(
        |n: N| n.qualified(),
    ));
    assert(labels(out@) =~= name_labels(names@));
    out
}

/// Set equivalence of two lists of names, each name taken in its qualified
/// form.
pub fn name_set_equiv<N: TypeName>(lhs: &Vec<N>, rhs: &Vec<N>) -> (res: Result<(), String>)
    ensures
        res is Ok <==> name_set(lhs@) == name_set(rhs@),
        res matches Err(message) ==> message@ == set_diagnosis(
            name_labels(lhs@),
            name_labels(rhs@),
        ),
{
    let l = qualify_all(lhs);
    let r = qualify_all(rhs);
    set_equiv(&l, &r)
}

/// Whether two names have the same qualified form.
pub fn same_name<N: TypeName>(lhs: &N, rhs: &N) -> (b: bool)
    ensures
        b == (lhs.qualified() == rhs.qualified()),
{
    let l = lhs.qualify();
    let r = rhs.qualify();
    l.same(&r)
}

/// How a diagnostic writes an annotation value: between quotes, or `null`
/// if there is none.
pub open spec fn annotation_text_of(value: Option<Annotation>) -> Seq<char> {
    match value {
        Some(a) => "\""@ + a.val@ + "\""@,
        None => "null"@,
    }
}

/// How a diagnostic writes an annotation value.
pub fn annotation_text(value: &Option<Annotation>) -> (s: String)
    ensures
        s@ == annotation_text_of(*value),
{
    match value {
        Some(a) => concat3("\"", a.val.as_str(), "\""),
        None => String::from_str("null"),
    }
}

impl Equiv for Option<Annotation> {
    open spec fn equivalent(lhs: &Self, rhs: &Self) -> bool {
        annotation_value_equiv(annotation_view(*lhs), annotation_view(*rhs))
    }

    /// Both values as a diagnostic writes them.
    open spec fn diagnosis(lhs: &Self, rhs: &Self) -> Seq<char> {
        annotation_text_of(*lhs) + " and "@ + annotation_text_of(*rhs) + " are not equivalent"@
    }

    /// A missing value is equivalent to an empty one and to another missing
    /// one; two values that are there must be equal.
    fn equiv(lhs: &Self, rhs: &Self) -> (res: Result<(), String>)
        ensures
            res is Ok <==> annotation_value_equiv(annotation_view(*lhs), annotation_view(*rhs)),
            res matches Err(message) ==> message@ == Self::diagnosis(lhs, rhs),
    {
        let same = match (lhs, rhs) {
            (Some(a), Some(b)) => a.val == b.val,
            (Some(a), None) => a.val.as_str().is_empty(),
            (None, Some(b)) => b.val.as_str().is_empty(),
            (None, None) => true,
        };
        if same {
            Ok(())
        } else {
            let l = annotation_text(lhs);
            let r = annotation_text(rhs);
            let mut message = concat3(l.as_str(), " and ", r.as_str());
            message.append(" are not equivalent");
            Err(message)
        }
    }
}

/// The texts of the keys of `lhs` that `rhs` lacks.
pub fn lacking_keys<K: Atom, V>(lhs: &AssocMap<K, V>, rhs: &AssocMap<K, V>) -> (missing: Vec<String>)
    ensures
        texts(missing@) == lacking_texts(labels(lhs.atoms()), rhs@.dom()),
{
    let mut missing: Vec<String> = Vec::new();
    let mut i: usize = 0;
    let n = lhs.len();
    assert(texts(missing@) =~= Seq::empty());
    while i < n
        invariant
            i <= n,
            n == lhs.entries().len(),
            texts(missing@) == lacking_texts(labels(lhs.atoms().take(i as int)), rhs@.dom()),
        decreases n - i,
    {
        let ghost before = labels(lhs.atoms().take(i as int));
        let ghost after = labels(lhs.atoms().take(i as int + 1));
        let key = lhs.key_at(i);
        proof {
            use_type_invariant(lhs);
            assert(after.drop_last() =~= before);
            assert(after.last() == (key.id(), key.text()));
            assert(!label_ids(before).contains(key.id())) by {
                let ids = before.map_values(|p: (K::Id, Seq<char>)| p.0);
                if ids.contains(key.id()) {
                    let k = choose|k: int| 0 <= k < ids.len() && ids[k] == key.id();
                    assert(lhs.keys()[k] == lhs.keys()[i as int]);
                }
            }
        }
        let ghost old_missing = missing@;
        if !rhs.contains_key(key) {
            missing.push(key.render());
            assert(texts(missing@) =~= texts(old_missing).push(key.text()));
        }
        i += 1;
    }
    assert(lhs.atoms().take(n as int) =~= lhs.atoms());
    missing
}

/// The diagnostics of the entries whose value is not equivalent to the value
/// that `rhs` has under the same key, each after its key, in the order of
/// the entries.
pub open spec fn mismatch_texts<K: Atom, V: Equiv>(entries: Seq<(K, V)>, rhs: Map<K::Id, V>) -> Seq<
    Seq<char>,
>
    decreases entries.len(),
{
    if entries.len() == 0 {
        Seq::empty()
    } else {
        let rest = mismatch_texts(entries.drop_last(), rhs);
        let last = entries.last();
        if V::equivalent(&last.1, &rhs[last.0.id()]) {
            rest
        } else {
            rest.push("for key `"@ + last.0.text() + "`: "@ + V::diagnosis(&last.1, &rhs[last.0.id()]))
        }
    }
}

/// The labels of the keys of a map have the identities of its domain.
pub proof fn lemma_key_label_ids<K: Atom, V>(m: &AssocMap<K, V>)
    requires
        m.keys_distinct(),
    ensures
        label_ids(labels(m.atoms())) == m@.dom(),
{
    m.lemma_domain();
    assert(labels(m.atoms()).map_values(|p: (K::Id, Seq<char>)| p.0) =~= m.keys());
}

impl<K: Atom, V: Equiv> Equiv for AssocMap<K, V> {
    /// The two maps have the same keys, and under each key equivalent values.
    open spec fn equivalent(lhs: &Self, rhs: &Self) -> bool {
        &&& lhs@.dom() == rhs@.dom()
        &&& forall|k: K::Id| lhs@.dom().contains(k) ==> V::equivalent(&lhs@[k], &rhs@[k])
    }

    /// If the key sets differ: the keys that only the left map has, then
    /// those that only the right map has. Else the diagnosis of every key
    /// whose values are not equivalent, in the order of the left map.
    open spec fn diagnosis(lhs: &Self, rhs: &Self) -> Seq<char> {
        if lhs@.dom() != rhs@.dom() {
            "Missing keys: "@ + joined(
                lacking_texts(labels(lhs.atoms()), rhs@.dom()) + lacking_texts(
                    labels(rhs.atoms()),
                    lhs@.dom(),
                ),
                ", "@,
            )
        } else {
            "Found the following mismatches: "@ + joined(mismatch_texts(lhs.entries(), rhs@), "\n"@)
        }
    }

    /// Map equivalence. Keys are compared by their identity, values by
    /// their own equivalence.
    fn equiv(lhs: &Self, rhs: &Self) -> (res: Result<(), String>)
        ensures
            res is Ok <==> {
                &&& lhs@.dom() == rhs@.dom()
                &&& forall|k: K::Id| lhs@.dom().contains(k) ==> V::equivalent(&lhs@[k], &rhs@[k])
            },
            res matches Err(message) ==> message@ == Self::diagnosis(lhs, rhs),
    {
        let mut missing = lacking_keys(lhs, rhs);
        let more = lacking_keys(rhs, lhs);
        append_all(&mut missing, more);
        proof {
            use_type_invariant(lhs);
            use_type_invariant(rhs);
            lemma_key_label_ids(lhs);
            lemma_key_label_ids(rhs);
            lemma_lacking_none(labels(lhs.atoms()), rhs@.dom());
            lemma_lacking_none(labels(rhs.atoms()), lhs@.dom());
        }
        if missing.len() != 0 {
            proof {
                reveal_strlit(", ");
            }
            return Err(concat2("Missing keys: ", join(&missing, ", ").as_str()));
        }
        assert(lhs@.dom() =~= rhs@.dom());
        let mut errors: Vec<String> = Vec::new();
        let n = lhs.len();
        let mut i: usize = 0;
        assert(texts(errors@) =~= Seq::empty());
        assert(lhs.entries().take(0) =~= Seq::empty());
        while i < n
            invariant
                i <= n,
                n == lhs.entries().len(),
                lhs@.dom() == rhs@.dom(),
                texts(errors@) == mismatch_texts(lhs.entries().take(i as int), rhs@),
                errors@.len() == 0 <==> forall|k: int|
                    0 <= k < i ==> V::equivalent(
                        &lhs@[#[trigger] lhs.keys()[k]],
                        &rhs@[lhs.keys()[k]],
                    ),
            decreases n - i,
        {
            let key = lhs.key_at(i);
            let l = lhs.value_at(i);
            proof {
                assert(lhs.entries().take(i as int + 1).drop_last() =~= lhs.entries().take(
                    i as int,
                ));
                assert(lhs.entries().take(i as int + 1).last() == lhs.entries()[i as int]);
            }
            let ghost old_errors = errors@;
            match rhs.get(key) {
                Some(r) => {
                    match V::equiv(l, r) {
                        Ok(()) => {},
                        Err(e) => {
                            let mut message = concat3("for key `", key.render().as_str(), "`: ");
                            message.append(e.as_str());
                            errors.push(message);
                            assert(texts(errors@) =~= texts(old_errors).push(message@));
                        },
                    }
                },
                None => {},
            }
            i += 1;
        }
        proof {
            assert(lhs.entries().take(n as int) =~= lhs.entries());
        }
        if errors.len() == 0 {
            proof {
                assert forall|k: K::Id| lhs@.dom().contains(k) implies V::equivalent(
                    &lhs@[k],
                    &rhs@[k],
                ) by {
                    let p = lhs.lemma_position(k);
                    assert(lhs.keys()[p] == k);
                }
            }
            Ok(())
        } else {
            proof {
                let p = choose|p: int|
                    0 <= p < lhs.keys().len() && !V::equivalent(
                        &lhs@[#[trigger] lhs.keys()[p]],
                        &rhs@[lhs.keys()[p]],
                    );
                lhs.lemma_entry(p);
            }
            proof {
                reveal_strlit("\n");
            }
            Err(concat2("Found the following mismatches: ", join(&errors, "\n").as_str()))
        }
    }
}

impl Equiv for Annotations {
    open spec fn equivalent(lhs: &Self, rhs: &Self) -> bool {
        annotations_equiv(lhs@, rhs@)
    }

    /// The diagnosis of the two annotation sets as maps.
    open spec fn diagnosis(lhs: &Self, rhs: &Self) -> Seq<char> {
        <AssocMap<String, Option<Annotation>> as Equiv>::diagnosis(&lhs.0, &rhs.0)
    }

    /// Annotation sets are compared as maps from names to values.
    fn equiv(lhs: &Self, rhs: &Self) -> (res: Result<(), String>)
        ensures
            res is Ok <==> annotations_equiv(lhs@, rhs@),
            res matches Err(message) ==> message@ == Self::diagnosis(lhs, rhs),
    {
        let res = Equiv::equiv(&lhs.0, &rhs.0);
        proof {
            assert(lhs@.dom() =~= lhs.0@.dom());
            assert(rhs@.dom() =~= rhs.0@.dom());
        }
        res
    }
}

} // verus!
