//! Laws of the equivalence relations.
use crate::assoc::AssocMap;
use crate::atom::Atom;
use crate::equiv::{
    label_ids, labels, lacking_texts, lemma_lacking_lists, lemma_lacking_only, name_labels,
    set_diagnosis, Equiv,
};
use crate::model::{
    action_type_equiv, annotations_equiv, apply_spec_equiv, attribute_equiv, common_type_equiv,
    either_empty, entity_type_equiv, fragment_equiv, is_trivial, namespace_equiv,
    nontrivial_names, record_equiv, reserved_namespace, type_equiv, variant_equiv,
    ActionTypeView, AnnotationsView, ApplySpecView, CommonTypeView, EntityTypeKindView,
    EntityTypeView, FragmentView, NameView, NamespaceDefinitionView, RecordTypeView,
    TypeVariantView, TypeView,
};
use crate::names::{name_set, TypeName};
use crate::schema::Fragment;
use crate::text::{joined, lemma_joined_mentions, lemma_mentions_inside, mentions};
use vstd::prelude::*;

verus! {

/// Every annotation set is equivalent to itself.
pub proof fn lemma_annotations_reflexive(a: AnnotationsView)
    ensures
        annotations_equiv(a, a),
{
}

/// Every type expression is equivalent to itself.
pub proof fn lemma_type_reflexive(t: TypeView)
    ensures
        type_equiv(t, t),
    decreases t,
{
    match t {
        TypeView::Type { ty } => lemma_variant_reflexive(ty),
        TypeView::CommonTypeRef { .. } => {},
    }
}

/// Every type written in place is equivalent to itself.
pub proof fn lemma_variant_reflexive(v: TypeVariantView)
    ensures
        variant_equiv(v, v),
    decreases v,
{
    match v {
        TypeVariantView::SetOf { element } => lemma_type_reflexive(*element),
        TypeVariantView::Record(r) => lemma_record_reflexive(r),
        _ => {},
    }
}

/// Every record type is equivalent to itself.
pub proof fn lemma_record_reflexive(r: RecordTypeView)
    ensures
        record_equiv(r, r),
    decreases r,
{
    assert forall|k: Seq<char>| r.attributes.dom().contains(k) implies attribute_equiv(
        r.attributes[k],
        r.attributes[k],
    ) by {
        lemma_type_reflexive(r.attributes[k].ty);
    }
}

/// Every entity type is equivalent to itself.
pub proof fn lemma_entity_type_reflexive(e: EntityTypeView)
    ensures
        entity_type_equiv(e, e),
{
    match e.kind {
        EntityTypeKindView::Standard(s) => {
            lemma_type_reflexive(s.shape);
            if let Some(t) = s.tags {
                lemma_type_reflexive(t);
            }
        },
        EntityTypeKindView::Enum { .. } => {},
    }
}

/// Every common type is equivalent to itself.
pub proof fn lemma_common_type_reflexive(c: CommonTypeView)
    ensures
        common_type_equiv(c, c),
{
    lemma_type_reflexive(c.ty);
}

/// Every action is equivalent to itself.
pub proof fn lemma_action_type_reflexive(a: ActionTypeView)
    ensures
        action_type_equiv(a, a),
{
    if let Some(s) = a.applies_to {
        lemma_type_reflexive(s.context);
    }
}

/// Every namespace is equivalent to itself.
pub proof fn lemma_namespace_reflexive(ns: NamespaceDefinitionView)
    ensures
        namespace_equiv(ns, ns),
{
    assert forall|k: Seq<char>| ns.entity_types.dom().contains(k) implies entity_type_equiv(
        ns.entity_types[k],
        ns.entity_types[k],
    ) by {
        lemma_entity_type_reflexive(ns.entity_types[k]);
    }
    assert forall|k: Seq<char>| ns.common_types.dom().contains(k) implies common_type_equiv(
        ns.common_types[k],
        ns.common_types[k],
    ) by {
        lemma_common_type_reflexive(ns.common_types[k]);
    }
    assert forall|k: Seq<char>| ns.actions.dom().contains(k) implies action_type_equiv(
        ns.actions[k],
        ns.actions[k],
    ) by {
        lemma_action_type_reflexive(ns.actions[k]);
    }
}

/// Reflexivity: every schema fragment is equivalent to itself.
pub proof fn lemma_fragment_reflexive(fragment: FragmentView)
    ensures
        fragment_equiv(fragment, fragment),
{
    assert forall|n: Option<Seq<char>>| nontrivial_names(fragment).contains(
        n,
    ) implies fragment.dom().contains(n) && namespace_equiv(fragment[n], fragment[n]) by {
        lemma_namespace_reflexive(fragment[n]);
    }
}

/// The fragment whose only namespace is the root namespace `ns`.
pub open spec fn root_only(ns: NamespaceDefinitionView) -> FragmentView {
    Map::<Option<Seq<char>>, NamespaceDefinitionView>::empty().insert(None, ns)
}

/// Erasure of the empty root namespace: a fragment that holds nothing but a
/// root namespace without declarations is equivalent, in both directions, to
/// the fragment without any namespace.
pub proof fn lemma_trivial_root_erased(ns: NamespaceDefinitionView)
    requires
        is_trivial(ns),
    ensures
        fragment_equiv(root_only(ns), Map::empty()),
        fragment_equiv(Map::empty(), root_only(ns)),
{
    let none = Map::<Option<Seq<char>>, NamespaceDefinitionView>::empty();
    assert(nontrivial_names(root_only(ns)) =~= Set::empty());
    assert(nontrivial_names(none) =~= Set::empty());
}

/// Aliasing of the built-in types: an ambiguous reference is equivalent to
/// `String`, `Long` or `Boolean`, on either side, exactly when it names
/// `String`, `Long` or `Bool` in the namespace `__cedar`.
pub proof fn lemma_primitive_aliasing(name: NameView)
    ensures
        variant_equiv(TypeVariantView::String, TypeVariantView::EntityOrCommon { name }) <==> name
            == (NameView { basename: "String"@, namespace: seq![reserved_namespace()] }),
        variant_equiv(TypeVariantView::Long, TypeVariantView::EntityOrCommon { name }) <==> name
            == (NameView { basename: "Long"@, namespace: seq![reserved_namespace()] }),
        variant_equiv(TypeVariantView::Boolean, TypeVariantView::EntityOrCommon { name }) <==> name
            == (NameView { basename: "Bool"@, namespace: seq![reserved_namespace()] }),
        variant_equiv(TypeVariantView::EntityOrCommon { name }, TypeVariantView::String)
            == variant_equiv(TypeVariantView::String, TypeVariantView::EntityOrCommon { name }),
        variant_equiv(TypeVariantView::EntityOrCommon { name }, TypeVariantView::Long)
            == variant_equiv(TypeVariantView::Long, TypeVariantView::EntityOrCommon { name }),
        variant_equiv(TypeVariantView::EntityOrCommon { name }, TypeVariantView::Boolean)
            == variant_equiv(TypeVariantView::Boolean, TypeVariantView::EntityOrCommon { name }),
{
}

/// `action` with `applies_to` in place of its apply spec.
pub open spec fn with_applies_to(action: ActionTypeView, applies_to: Option<ApplySpecView>) -> ActionTypeView {
    ActionTypeView {
        attributes: action.attributes,
        applies_to,
        member_of: action.member_of,
        annotations: action.annotations,
    }
}

/// An action whose apply spec can never be met is equivalent to the same
/// action without apply spec, in both directions.
pub proof fn lemma_unmeetable_apply_spec_is_none(action: ActionTypeView, spec: ApplySpecView)
    requires
        either_empty(spec),
    ensures
        action_type_equiv(with_applies_to(action, Some(spec)), with_applies_to(action, None)),
        action_type_equiv(with_applies_to(action, None), with_applies_to(action, Some(spec))),
{
}

/// Two actions whose apply specs can never be met are equivalent, whichever
/// of the two lists is the empty one on each side and whatever their
/// contexts are.
pub proof fn lemma_unmeetable_apply_specs_agree(
    action: ActionTypeView,
    lhs: ApplySpecView,
    rhs: ApplySpecView,
)
    requires
        either_empty(lhs),
        either_empty(rhs),
    ensures
        action_type_equiv(with_applies_to(action, Some(lhs)), with_applies_to(action, Some(rhs))),
{
}

/// An action whose apply spec can never be met is not equivalent to an
/// action whose apply spec names a principal type and a resource type.
pub proof fn lemma_unmeetable_apply_spec_differs(
    lhs_action: ActionTypeView,
    rhs_action: ActionTypeView,
    lhs: ApplySpecView,
    rhs: ApplySpecView,
)
    requires
        either_empty(lhs),
        !either_empty(rhs),
    ensures
        !action_type_equiv(
            with_applies_to(lhs_action, Some(lhs)),
            with_applies_to(rhs_action, Some(rhs)),
        ),
        !action_type_equiv(
            with_applies_to(rhs_action, Some(rhs)),
            with_applies_to(lhs_action, Some(lhs)),
        ),
        !action_type_equiv(with_applies_to(rhs_action, Some(rhs)), with_applies_to(lhs_action, None)),
        !action_type_equiv(with_applies_to(lhs_action, None), with_applies_to(rhs_action, Some(rhs))),
{
}

/// An annotation without value is equivalent to the same annotation with an
/// empty value, and to no annotation with a value that is not empty.
pub proof fn lemma_annotation_null_is_empty(name: Seq<char>, value: Seq<char>)
    ensures
        annotations_equiv(
            Map::<Seq<char>, Option<Seq<char>>>::empty().insert(name, None),
            Map::<Seq<char>, Option<Seq<char>>>::empty().insert(name, Some(value)),
        ) <==> value.len() == 0,
        annotations_equiv(
            Map::<Seq<char>, Option<Seq<char>>>::empty().insert(name, Some(value)),
            Map::<Seq<char>, Option<Seq<char>>>::empty().insert(name, None),
        ) <==> value.len() == 0,
{
    let absent = Map::<Seq<char>, Option<Seq<char>>>::empty().insert(name, None);
    let present = Map::<Seq<char>, Option<Seq<char>>>::empty().insert(name, Some(value));
    assert(absent.dom() =~= present.dom());
    assert(absent.dom().contains(name));
    assert(present.dom().contains(name));
}

/// Annotation sets over different names are never equivalent.
pub proof fn lemma_annotation_names_strict(lhs: AnnotationsView, rhs: AnnotationsView, name: Seq<char>)
    requires
        lhs.dom().contains(name) != rhs.dom().contains(name),
    ensures
        !annotations_equiv(lhs, rhs),
{
}

/// Enumerated entity types are equivalent only if they have the same
/// choices: a choice that one side lacks tells them apart.
pub proof fn lemma_enum_strict(lhs: EntityTypeView, rhs: EntityTypeView, choice: Seq<char>)
    requires
        lhs.kind matches EntityTypeKindView::Enum { choices } && choices.contains(choice),
        rhs.kind matches EntityTypeKindView::Enum { choices } && !choices.contains(choice),
    ensures
        !entity_type_equiv(lhs, rhs),
        !entity_type_equiv(rhs, lhs),
{
}

/// Record types are equivalent only if they have the same attribute names,
/// whatever their flags say: a name that one side lacks tells them apart.
pub proof fn lemma_record_keys_strict(lhs: RecordTypeView, rhs: RecordTypeView, name: Seq<char>)
    requires
        lhs.attributes.dom().contains(name),
        !rhs.attributes.dom().contains(name),
    ensures
        !record_equiv(lhs, rhs),
        !record_equiv(rhs, lhs),
{
}

/// Equivalence of annotation sets does not depend on the side.
pub proof fn lemma_annotations_symmetric(lhs: AnnotationsView, rhs: AnnotationsView)
    requires
        annotations_equiv(lhs, rhs),
    ensures
        annotations_equiv(rhs, lhs),
{
}

/// Equivalence of type expressions does not depend on the side.
pub proof fn lemma_type_symmetric(lhs: TypeView, rhs: TypeView)
    requires
        type_equiv(lhs, rhs),
    ensures
        type_equiv(rhs, lhs),
    decreases lhs,
{
    match (lhs, rhs) {
        (TypeView::Type { ty: a }, TypeView::Type { ty: b }) => lemma_variant_symmetric(a, b),
        _ => {},
    }
}

/// Equivalence of types written in place does not depend on the side.
pub proof fn lemma_variant_symmetric(lhs: TypeVariantView, rhs: TypeVariantView)
    requires
        variant_equiv(lhs, rhs),
    ensures
        variant_equiv(rhs, lhs),
    decreases lhs,
{
    match (lhs, rhs) {
        (TypeVariantView::Record(a), TypeVariantView::Record(b)) => lemma_record_symmetric(a, b),
        (TypeVariantView::SetOf { element: a }, TypeVariantView::SetOf { element: b }) => {
            lemma_type_symmetric(*a, *b)
        },
        _ => {},
    }
}

/// Equivalence of record types does not depend on the side.
pub proof fn lemma_record_symmetric(lhs: RecordTypeView, rhs: RecordTypeView)
    requires
        record_equiv(lhs, rhs),
    ensures
        record_equiv(rhs, lhs),
    decreases lhs,
{
    assert forall|k: Seq<char>| rhs.attributes.dom().contains(k) implies attribute_equiv(
        rhs.attributes[k],
        lhs.attributes[k],
    ) by {
        assert(attribute_equiv(lhs.attributes[k], rhs.attributes[k]));
        lemma_type_symmetric(lhs.attributes[k].ty, rhs.attributes[k].ty);
    }
}

/// Equivalence of entity types does not depend on the side.
pub proof fn lemma_entity_type_symmetric(lhs: EntityTypeView, rhs: EntityTypeView)
    requires
        entity_type_equiv(lhs, rhs),
    ensures
        entity_type_equiv(rhs, lhs),
{
    match (lhs.kind, rhs.kind) {
        (EntityTypeKindView::Standard(a), EntityTypeKindView::Standard(b)) => {
            lemma_type_symmetric(a.shape, b.shape);
            match (a.tags, b.tags) {
                (Some(x), Some(y)) => lemma_type_symmetric(x, y),
                _ => {},
            }
        },
        _ => {},
    }
}

/// Equivalence of common types does not depend on the side.
pub proof fn lemma_common_type_symmetric(lhs: CommonTypeView, rhs: CommonTypeView)
    requires
        common_type_equiv(lhs, rhs),
    ensures
        common_type_equiv(rhs, lhs),
{
    lemma_type_symmetric(lhs.ty, rhs.ty);
}

/// Equivalence of actions does not depend on the side.
pub proof fn lemma_action_type_symmetric(lhs: ActionTypeView, rhs: ActionTypeView)
    requires
        action_type_equiv(lhs, rhs),
    ensures
        action_type_equiv(rhs, lhs),
{
    match (lhs.applies_to, rhs.applies_to) {
        (Some(a), Some(b)) => {
            if apply_spec_equiv(a, b) {
                lemma_type_symmetric(a.context, b.context);
            }
        },
        _ => {},
    }
}

/// Equivalence of namespaces does not depend on the side.
pub proof fn lemma_namespace_symmetric(lhs: NamespaceDefinitionView, rhs: NamespaceDefinitionView)
    requires
        namespace_equiv(lhs, rhs),
    ensures
        namespace_equiv(rhs, lhs),
{
    assert forall|k: Seq<char>| rhs.entity_types.dom().contains(k) implies entity_type_equiv(
        rhs.entity_types[k],
        lhs.entity_types[k],
    ) by {
        lemma_entity_type_symmetric(lhs.entity_types[k], rhs.entity_types[k]);
    }
    assert forall|k: Seq<char>| rhs.common_types.dom().contains(k) implies common_type_equiv(
        rhs.common_types[k],
        lhs.common_types[k],
    ) by {
        lemma_common_type_symmetric(lhs.common_types[k], rhs.common_types[k]);
    }
    assert forall|k: Seq<char>| rhs.actions.dom().contains(k) implies action_type_equiv(
        rhs.actions[k],
        lhs.actions[k],
    ) by {
        lemma_action_type_symmetric(lhs.actions[k], rhs.actions[k]);
    }
}

/// Symmetry: if a fragment with finitely many namespaces is equivalent to
/// another such fragment, the other is equivalent to it.
pub proof fn lemma_fragment_symmetric(lhs: FragmentView, rhs: FragmentView)
    requires
        lhs.dom().finite(),
        rhs.dom().finite(),
        fragment_equiv(lhs, rhs),
    ensures
        fragment_equiv(rhs, lhs),
{
    let left = nontrivial_names(lhs);
    let right = nontrivial_names(rhs);
    assert(left.subset_of(right)) by {
        assert forall|n: Option<Seq<char>>| left.contains(n) implies right.contains(n) by {
            assert(namespace_equiv(lhs[n], rhs[n]));
        }
    }
    assert(left.subset_of(lhs.dom()));
    assert(right.subset_of(rhs.dom()));
    vstd::set_lib::lemma_len_subset(left, lhs.dom());
    vstd::set_lib::lemma_len_subset(right, rhs.dom());
    vstd::set_lib::lemma_subset_equality(left, right);
    assert forall|n: Option<Seq<char>>| right.contains(n) implies lhs.dom().contains(n)
        && namespace_equiv(rhs[n], lhs[n]) by {
        assert(left.contains(n));
        lemma_namespace_symmetric(lhs[n], rhs[n]);
    }
}

/// Reflexivity of the check: a schema fragment is equivalent to itself, so
/// that checking it against itself succeeds.
pub proof fn lemma_fragment_check_reflexive<N: TypeName>(fragment: &Fragment<N>)
    ensures
        Fragment::equivalent(fragment, fragment),
{
    lemma_fragment_reflexive(fragment@);
}

/// Symmetry of the check: if checking one schema fragment against another
/// succeeds, checking the other against the one succeeds as well.
pub proof fn lemma_fragment_check_symmetric<N: TypeName>(lhs: &Fragment<N>, rhs: &Fragment<N>)
    requires
        lhs.0.keys_distinct(),
        rhs.0.keys_distinct(),
        Fragment::equivalent(lhs, rhs),
    ensures
        Fragment::equivalent(rhs, lhs),
{
    lhs.0.lemma_domain();
    rhs.0.lemma_domain();
    assert(lhs@.dom() =~= lhs.0@.dom());
    assert(rhs@.dom() =~= rhs.0@.dom());
    lemma_fragment_symmetric(lhs@, rhs@);
}

/// Two finite maps have the same keys exactly when they have the same size
/// and every key of the left map is a key of the right map.
pub proof fn lemma_same_keys_by_size<K, V>(lhs: Map<K, V>, rhs: Map<K, V>)
    requires
        lhs.dom().finite(),
        rhs.dom().finite(),
    ensures
        lhs.dom() == rhs.dom() <==> lhs.len() == rhs.len() && lhs.dom().subset_of(rhs.dom()),
{
    if lhs.len() == rhs.len() && lhs.dom().subset_of(rhs.dom()) {
        vstd::set_lib::lemma_subset_equality(lhs.dom(), rhs.dom());
    }
}

/// The labels of a list of names stand for the qualified forms of the
/// names, so that what is stated of labelled lists holds of lists of names.
pub proof fn lemma_name_label_ids<N: TypeName>(names: Seq<N>)
    ensures
        label_ids(name_labels(names)) == name_set(names),
{
    assert(name_labels(names).map_values(|p: (NameView, Seq<char>)| p.0) =~= names.map_values(
        |n: N| n.qualified(),
    ));
}

/// Reporting of set items: if an item of the left list has no counterpart
/// in the right list, the diagnosis of the two lists mentions an item of the
/// left list of that identity.
pub proof fn lemma_item_of_lhs_is_mentioned<I>(
    lhs: Seq<(I, Seq<char>)>,
    rhs: Seq<(I, Seq<char>)>,
    k: int,
) -> (j: int)
    requires
        0 <= k < lhs.len(),
        !label_ids(rhs).contains(lhs[k].0),
    ensures
        0 <= j < lhs.len(),
        lhs[j].0 == lhs[k].0,
        mentions(set_diagnosis(lhs, rhs), lhs[j].1),
{
    let left = lacking_texts(lhs, label_ids(rhs));
    let right = lacking_texts(rhs, label_ids(lhs));
    let j = lemma_lacking_lists(lhs, label_ids(rhs), k);
    let i = choose|i: int| 0 <= i < left.len() && left[i] == lhs[j].1;
    assert((left + right)[i] == lhs[j].1);
    lemma_listed_is_mentioned("missing set elements: "@, left + right, i);
    j
}

/// Reporting of set items: if an item of the right list has no counterpart
/// in the left list, the diagnosis of the two lists mentions an item of the
/// right list of that identity.
pub proof fn lemma_item_of_rhs_is_mentioned<I>(
    lhs: Seq<(I, Seq<char>)>,
    rhs: Seq<(I, Seq<char>)>,
    k: int,
) -> (j: int)
    requires
        0 <= k < rhs.len(),
        !label_ids(lhs).contains(rhs[k].0),
    ensures
        0 <= j < rhs.len(),
        rhs[j].0 == rhs[k].0,
        mentions(set_diagnosis(lhs, rhs), rhs[j].1),
{
    let left = lacking_texts(lhs, label_ids(rhs));
    let right = lacking_texts(rhs, label_ids(lhs));
    let j = lemma_lacking_lists(rhs, label_ids(lhs), k);
    let i = choose|i: int| 0 <= i < right.len() && right[i] == rhs[j].1;
    assert((left + right)[left.len() + i] == rhs[j].1);
    lemma_listed_is_mentioned("missing set elements: "@, left + right, left.len() + i);
    j
}

/// The diagnosis of two lists that differ as sets lists nothing but items
/// that one side has and the other has not.
pub proof fn lemma_set_diagnosis_lists_differences<I>(
    lhs: Seq<(I, Seq<char>)>,
    rhs: Seq<(I, Seq<char>)>,
    at: int,
)
    requires
        0 <= at < (lacking_texts(lhs, label_ids(rhs)) + lacking_texts(rhs, label_ids(lhs))).len(),
    ensures
        ({
            let listed = (lacking_texts(lhs, label_ids(rhs)) + lacking_texts(
                rhs,
                label_ids(lhs),
            ))[at];
            ||| exists|k: int|
                0 <= k < lhs.len() && (#[trigger] lhs[k]).1 == listed && !label_ids(rhs).contains(
                    lhs[k].0,
                )
            ||| exists|k: int|
                0 <= k < rhs.len() && (#[trigger] rhs[k]).1 == listed && !label_ids(lhs).contains(
                    rhs[k].0,
                )
        }),
{
    let left = lacking_texts(lhs, label_ids(rhs));
    if at < left.len() {
        let k = lemma_lacking_only(lhs, label_ids(rhs), at);
        assert(lhs[k].1 == left[at]);
    } else {
        let k = lemma_lacking_only(rhs, label_ids(lhs), at - left.len());
        assert(rhs[k].1 == lacking_texts(rhs, label_ids(lhs))[at - left.len()]);
    }
}

/// A text that is listed after a heading is mentioned in the whole.
proof fn lemma_listed_is_mentioned(heading: Seq<char>, listed: Seq<Seq<char>>, i: int)
    requires
        0 <= i < listed.len(),
    ensures
        mentions(heading + joined(listed, ", "@), listed[i]),
{
    lemma_joined_mentions(listed, ", "@, i);
    lemma_mentions_inside(heading, joined(listed, ", "@), Seq::empty(), listed[i]);
    assert(heading + joined(listed, ", "@) + Seq::<char>::empty() =~= heading + joined(
        listed,
        ", "@,
    ));
}

/// The keys of a map, as labels, have pairwise different identities.
proof fn lemma_key_labels_distinct<K: Atom, V>(m: &AssocMap<K, V>)
    requires
        m.keys_distinct(),
    ensures
        forall|i: int, j: int|
            0 <= i < j < labels(m.atoms()).len() ==> labels(m.atoms())[i].0 != labels(
                m.atoms(),
            )[j].0,
{
    assert forall|i: int, j: int| 0 <= i < j < labels(m.atoms()).len() implies labels(
        m.atoms(),
    )[i].0 != labels(m.atoms())[j].0 by {
        assert(m.keys()[i] != m.keys()[j]);
    }
}

/// Reporting of keys: if a key of the left map is no key of the right map,
/// the diagnosis of the two maps mentions that key.
pub proof fn lemma_key_of_lhs_is_mentioned<K: Atom, V: Equiv>(
    lhs: &AssocMap<K, V>,
    rhs: &AssocMap<K, V>,
    k: int,
)
    requires
        lhs.keys_distinct(),
        rhs.keys_distinct(),
        0 <= k < lhs.atoms().len(),
        !rhs@.dom().contains(lhs.atoms()[k].id()),
    ensures
        mentions(AssocMap::diagnosis(lhs, rhs), lhs.atoms()[k].text()),
{
    lhs.lemma_entry(k);
    let left = lacking_texts(labels(lhs.atoms()), rhs@.dom());
    let right = lacking_texts(labels(rhs.atoms()), lhs@.dom());
    lemma_key_labels_distinct(lhs);
    let j = lemma_lacking_lists(labels(lhs.atoms()), rhs@.dom(), k);
    assert(j == k);
    let text = lhs.atoms()[k].text();
    let i = choose|i: int| 0 <= i < left.len() && left[i] == text;
    assert((left + right)[i] == text);
    lemma_listed_is_mentioned("Missing keys: "@, left + right, i);
}

/// Reporting of keys: if a key of the right map is no key of the left map,
/// the diagnosis of the two maps mentions that key.
pub proof fn lemma_key_of_rhs_is_mentioned<K: Atom, V: Equiv>(
    lhs: &AssocMap<K, V>,
    rhs: &AssocMap<K, V>,
    k: int,
)
    requires
        lhs.keys_distinct(),
        rhs.keys_distinct(),
        0 <= k < rhs.atoms().len(),
        !lhs@.dom().contains(rhs.atoms()[k].id()),
    ensures
        mentions(AssocMap::diagnosis(lhs, rhs), rhs.atoms()[k].text()),
{
    rhs.lemma_entry(k);
    let left = lacking_texts(labels(lhs.atoms()), rhs@.dom());
    let right = lacking_texts(labels(rhs.atoms()), lhs@.dom());
    lemma_key_labels_distinct(rhs);
    let j = lemma_lacking_lists(labels(rhs.atoms()), lhs@.dom(), k);
    assert(j == k);
    let text = rhs.atoms()[k].text();
    let i = choose|i: int| 0 <= i < right.len() && right[i] == text;
    assert((left + right)[left.len() + i] == text);
    lemma_listed_is_mentioned("Missing keys: "@, left + right, left.len() + i);
}

} // verus!
