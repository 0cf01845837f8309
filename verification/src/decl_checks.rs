//! Equivalence of declarations: common types, entity types, actions,
//! namespaces and whole fragments.
use crate::assoc::AssocMap;
use crate::atom::Atom;
use crate::equiv::{
    labels, name_labels, name_set_equiv, same_name, set_diagnosis, set_equiv, with_context, Equiv,
};
use crate::model::{
    action_type_equiv, annotations_equiv, applies_to_equiv, apply_spec_equiv, common_type_equiv,
    either_empty, entity_kind_equiv, entity_type_equiv, is_trivial, namespace_equiv,
    no_attributes, no_members, tags_equiv, type_equiv,
};
use crate::names::{name_set, TypeName};
use crate::schema::{
    action_attributes_view, applies_to_view, deep, member_of_view, tags_view, ActionEntityUID,
    ActionType, Annotations, ApplySpec, CommonType, EntityType, EntityTypeKind,
    NamespaceDefinition, StandardEntityType, Type,
};
use crate::text::texts;
use crate::type_checks::{check_type, type_diagnosis};
use vstd::prelude::*;
use vstd::string::*;

verus! {

impl<N: TypeName> Equiv for CommonType<N> {
    open spec fn equivalent(lhs: &Self, rhs: &Self) -> bool {
        common_type_equiv(lhs@, rhs@)
    }

    /// The diagnosis of the annotations, or else that of the types.
    open spec fn diagnosis(lhs: &Self, rhs: &Self) -> Seq<char> {
        if !annotations_equiv(lhs.annotations@, rhs.annotations@) {
            "mismatch in common type annotations: "@ + Annotations::diagnosis(
                &lhs.annotations,
                &rhs.annotations,
            )
        } else {
            type_diagnosis(&lhs.ty, &rhs.ty)
        }
    }

    /// Common types: equivalent annotations, then equivalent types.
    fn equiv(lhs: &Self, rhs: &Self) -> (res: Result<(), String>)
        ensures
            res is Ok <==> common_type_equiv(lhs@, rhs@),
            res matches Err(message) ==> message@ == Self::diagnosis(lhs, rhs),
    {
        match with_context(
            "mismatch in common type annotations: ",
            Annotations::equiv(&lhs.annotations, &rhs.annotations),
        ) {
            Ok(()) => {},
            Err(e) => {
                return Err(e);
            },
        }
        check_type(&lhs.ty, &rhs.ty)
    }
}

/// What [`check_tags`] says of tag types that do not agree: the diagnosis of
/// the two types, or the side that alone has tags.
pub open spec fn tags_diagnosis<N: TypeName>(lhs: &Option<Type<N>>, rhs: &Option<Type<N>>) -> Seq<
    char,
> {
    match (lhs, rhs) {
        (Some(l), Some(r)) => "mismatched entity tags: "@ + type_diagnosis(l, r),
        (Some(_), None) => "only one side has tags: lhs"@,
        (None, Some(_)) => "only one side has tags: rhs"@,
        (None, None) => Seq::empty(),
    }
}

/// Decides [`tags_equiv`]. A tag type on one side only is named with its side.
pub fn check_tags<N: TypeName>(lhs: &Option<Type<N>>, rhs: &Option<Type<N>>) -> (res: Result<
    (),
    String,
>)
    ensures
        res is Ok <==> tags_equiv(tags_view(*lhs), tags_view(*rhs)),
        res matches Err(message) ==> message@ == tags_diagnosis(lhs, rhs),
{
    match (lhs, rhs) {
        (Some(l), Some(r)) => with_context("mismatched entity tags: ", check_type(l, r)),
        (None, None) => Ok(()),
        (Some(_), None) => Err(String::from_str("only one side has tags: lhs")),
        (None, Some(_)) => Err(String::from_str("only one side has tags: rhs")),
    }
}

/// What [`check_standard`] says of two standard entity types that do not
/// agree: the parents that only one side has, the diagnosis of the shapes,
/// or that of the tag types.
pub open spec fn standard_diagnosis<N: TypeName>(
    lhs: &StandardEntityType<N>,
    rhs: &StandardEntityType<N>,
) -> Seq<char> {
    if lhs@.member_of_types != rhs@.member_of_types {
        "memberOfTypes are not equal: "@ + set_diagnosis(
            name_labels(lhs.member_of_types@),
            name_labels(rhs.member_of_types@),
        )
    } else if !type_equiv(lhs@.shape, rhs@.shape) {
        "mismatched types: "@ + type_diagnosis(&lhs.shape.0, &rhs.shape.0)
    } else {
        tags_diagnosis(&lhs.tags, &rhs.tags)
    }
}

/// Decides the rule for two standard entity types: the same parents,
/// equivalent shapes, agreeing tag types.
pub fn check_standard<N: TypeName>(lhs: &StandardEntityType<N>, rhs: &StandardEntityType<N>) -> (res:
    Result<(), String>)
    ensures
        res is Ok <==> {
            &&& lhs@.member_of_types == rhs@.member_of_types
            &&& type_equiv(lhs@.shape, rhs@.shape)
            &&& tags_equiv(lhs@.tags, rhs@.tags)
        },
        res matches Err(message) ==> message@ == standard_diagnosis(lhs, rhs),
{
    match with_context(
        "memberOfTypes are not equal: ",
        name_set_equiv(&lhs.member_of_types, &rhs.member_of_types),
    ) {
        Ok(()) => {},
        Err(e) => {
            return Err(e);
        },
    }
    match with_context("mismatched types: ", check_type(&lhs.shape.0, &rhs.shape.0)) {
        Ok(()) => {},
        Err(e) => {
            return Err(e);
        },
    }
    check_tags(&lhs.tags, &rhs.tags)
}

/// What [`check_entity_kind`] says of two kinds that do not agree: the
/// choices that only one enumeration has, the diagnosis of the two standard
/// types, or which kind stands on which side.
pub open spec fn entity_kind_diagnosis<N: TypeName>(
    lhs: &EntityTypeKind<N>,
    rhs: &EntityTypeKind<N>,
) -> Seq<char> {
    match (lhs, rhs) {
        (EntityTypeKind::Enum { choices: c1 }, EntityTypeKind::Enum { choices: c2 }) => {
            "enumerated entity types have different eid choices: "@ + set_diagnosis(
                labels(c1@),
                labels(c2@),
            )
        },
        (EntityTypeKind::Standard(l), EntityTypeKind::Standard(r)) => standard_diagnosis(l, r),
        (
            EntityTypeKind::Enum { .. },
            EntityTypeKind::Standard(_),
        ) => "different entity type kind: enumerated and standard"@,
        (
            EntityTypeKind::Standard(_),
            EntityTypeKind::Enum { .. },
        ) => "different entity type kind: standard and enumerated"@,
    }
}

/// Decides [`entity_kind_equiv`].
pub fn check_entity_kind<N: TypeName>(lhs: &EntityTypeKind<N>, rhs: &EntityTypeKind<N>) -> (res:
    Result<(), String>)
    ensures
        res is Ok <==> entity_kind_equiv(lhs@, rhs@),
        res matches Err(message) ==> message@ == entity_kind_diagnosis(lhs, rhs),
{
    match (lhs, rhs) {
        (EntityTypeKind::Enum { choices: c1 }, EntityTypeKind::Enum { choices: c2 }) => {
            proof {
                assert(c1@.map_values(|t: String| t.id()) =~= texts(c1@));
                assert(c2@.map_values(|t: String| t.id()) =~= texts(c2@));
            }
            with_context("enumerated entity types have different eid choices: ", set_equiv(c1, c2))
        },
        (EntityTypeKind::Standard(l), EntityTypeKind::Standard(r)) => check_standard(l, r),
        (EntityTypeKind::Enum { .. }, EntityTypeKind::Standard(_)) => Err(
            String::from_str("different entity type kind: enumerated and standard"),
        ),
        (EntityTypeKind::Standard(_), EntityTypeKind::Enum { .. }) => Err(
            String::from_str("different entity type kind: standard and enumerated"),
        ),
    }
}

impl<N: TypeName> Equiv for EntityType<N> {
    open spec fn equivalent(lhs: &Self, rhs: &Self) -> bool {
        entity_type_equiv(lhs@, rhs@)
    }

    /// The diagnosis of the annotations, or else that of the kinds.
    open spec fn diagnosis(lhs: &Self, rhs: &Self) -> Seq<char> {
        if !annotations_equiv(lhs.annotations@, rhs.annotations@) {
            "mismatch in entity annotations: "@ + Annotations::diagnosis(
                &lhs.annotations,
                &rhs.annotations,
            )
        } else {
            entity_kind_diagnosis(&lhs.kind, &rhs.kind)
        }
    }

    /// Entity types: equivalent annotations, then agreeing kinds.
    fn equiv(lhs: &Self, rhs: &Self) -> (res: Result<(), String>)
        ensures
            res is Ok <==> entity_type_equiv(lhs@, rhs@),
            res matches Err(message) ==> message@ == Self::diagnosis(lhs, rhs),
    {
        match with_context(
            "mismatch in entity annotations: ",
            Annotations::equiv(&lhs.annotations, &rhs.annotations),
        ) {
            Ok(()) => {},
            Err(e) => {
                return Err(e);
            },
        }
        check_entity_kind(&lhs.kind, &rhs.kind)
    }
}

impl<N: TypeName> Equiv for ApplySpec<N> {
    open spec fn equivalent(lhs: &Self, rhs: &Self) -> bool {
        apply_spec_equiv(lhs@, rhs@)
    }

    /// The diagnosis of the contexts, or else the principal types that
    /// only one side has, or else the resource types that only one side has.
    open spec fn diagnosis(lhs: &Self, rhs: &Self) -> Seq<char> {
        if !type_equiv(lhs@.context, rhs@.context) {
            type_diagnosis(&lhs.context.0, &rhs.context.0)
        } else if lhs@.principal_types != rhs@.principal_types {
            set_diagnosis(name_labels(lhs.principal_types@), name_labels(rhs.principal_types@))
        } else {
            set_diagnosis(name_labels(lhs.resource_types@), name_labels(rhs.resource_types@))
        }
    }

    /// Apply specs: equivalent contexts, the same principal types, the same
    /// resource types.
    fn equiv(lhs: &Self, rhs: &Self) -> (res: Result<(), String>)
        ensures
            res is Ok <==> apply_spec_equiv(lhs@, rhs@),
            res matches Err(message) ==> message@ == Self::diagnosis(lhs, rhs),
    {
        match check_type(&lhs.context.0, &rhs.context.0) {
            Ok(()) => {},
            Err(e) => {
                return Err(e);
            },
        }
        match name_set_equiv(&lhs.principal_types, &rhs.principal_types) {
            Ok(()) => {},
            Err(e) => {
                return Err(e);
            },
        }
        name_set_equiv(&lhs.resource_types, &rhs.resource_types)
    }
}

/// Whether the apply spec has no principal type or no resource type.
pub fn is_either_empty<N: TypeName>(spec: &ApplySpec<N>) -> (b: bool)
    ensures
        b == either_empty(spec@),
{
    proof {
        lemma_name_set_empty(spec.principal_types@);
        lemma_name_set_empty(spec.resource_types@);
    }
    spec.principal_types.len() == 0 || spec.resource_types.len() == 0
}

/// A list of names is empty as a set exactly when it has no item.
pub proof fn lemma_name_set_empty<N: TypeName>(names: Seq<N>)
    ensures
        name_set(names).is_empty() <==> names.len() == 0,
{
    let forms = names.map_values(|n: N| n.qualified());
    if names.len() == 0 {
        assert(forms.to_set() =~= Set::empty());
    } else {
        assert(forms.to_set().contains(forms[0]));
    }
}

/// What [`check_applies_to`] says of apply specs that do not agree: the
/// diagnosis of the two specs, or the side that alone has a spec.
pub open spec fn applies_to_diagnosis<N: TypeName>(
    lhs: &Option<ApplySpec<N>>,
    rhs: &Option<ApplySpec<N>>,
) -> Seq<char> {
    match (lhs, rhs) {
        (Some(l), Some(r)) => "Mismatches appliesTo: "@ + ApplySpec::diagnosis(l, r),
        (Some(_), None) => "Mismatched appliesTo, lhs was `Some`, `rhs` was `None`"@,
        (None, Some(_)) => "Mismatched appliesTo, lhs was `None`, `rhs` was `Some`"@,
        (None, None) => Seq::empty(),
    }
}

/// Decides [`applies_to_equiv`]. An apply spec on one side only is named with
/// its side.
pub fn check_applies_to<N: TypeName>(lhs: &Option<ApplySpec<N>>, rhs: &Option<ApplySpec<N>>) -> (res:
    Result<(), String>)
    ensures
        res is Ok <==> applies_to_equiv(applies_to_view(*lhs), applies_to_view(*rhs)),
        res matches Err(message) ==> message@ == applies_to_diagnosis(lhs, rhs),
{
    match (lhs, rhs) {
        (None, None) => Ok(()),
        (Some(l), Some(r)) => {
            if is_either_empty(l) && is_either_empty(r) {
                Ok(())
            } else {
                with_context("Mismatches appliesTo: ", ApplySpec::equiv(l, r))
            }
        },
        (Some(l), None) => {
            if is_either_empty(l) {
                Ok(())
            } else {
                Err(String::from_str("Mismatched appliesTo, lhs was `Some`, `rhs` was `None`"))
            }
        },
        (None, Some(r)) => {
            if is_either_empty(r) {
                Ok(())
            } else {
                Err(String::from_str("Mismatched appliesTo, lhs was `None`, `rhs` was `Some`"))
            }
        },
    }
}

/// Whether two maps from strings to strings are equal.
pub fn same_text_map(lhs: &AssocMap<String, String>, rhs: &AssocMap<String, String>) -> (b: bool)
    ensures
        b == (deep(*lhs) == deep(*rhs)),
{
    proof {
        assert(deep(*lhs).dom() =~= lhs@.dom());
        assert(deep(*rhs).dom() =~= rhs@.dom());
    }
    if !lhs.same_keys(rhs) {
        return false;
    }
    let n = lhs.len();
    let mut i: usize = 0;
    while i < n
        invariant
            i <= n,
            n == lhs.keys().len(),
            lhs@.dom() == rhs@.dom(),
            forall|k: int|
                0 <= k < i ==> lhs@[#[trigger] lhs.keys()[k]]@ == rhs@[lhs.keys()[k]]@,
        decreases n - i,
    {
        let key = lhs.key_at(i);
        let l = lhs.value_at(i);
        let equal = match rhs.get(key) {
            Some(r) => *l == *r,
            None => false,
        };
        if !equal {
            proof {
                let k = key.id();
                assert(deep(*lhs)[k] != deep(*rhs)[k]);
            }
            return false;
        }
        i += 1;
    }
    proof {
        assert forall|k: Seq<char>| deep(*lhs).dom().contains(k) implies deep(*lhs)[k] == deep(
            *rhs,
        )[k] by {
            let p = lhs.lemma_position(k);
            assert(lhs.keys()[p] == k);
        }
        assert(deep(*lhs) =~= deep(*rhs));
    }
    true
}

/// Whether the attributes of two actions are equal.
pub fn same_attributes(
    lhs: &Option<AssocMap<String, String>>,
    rhs: &Option<AssocMap<String, String>>,
) -> (b: bool)
    ensures
        b == (action_attributes_view(*lhs) == action_attributes_view(*rhs)),
{
    match (lhs, rhs) {
        (Some(l), Some(r)) => same_text_map(l, r),
        (None, None) => true,
        _ => false,
    }
}

/// Whether the attributes of an action are absent or empty.
pub fn has_no_attributes(attributes: &Option<AssocMap<String, String>>) -> (b: bool)
    ensures
        b == no_attributes(action_attributes_view(*attributes)),
{
    match attributes {
        Some(m) => {
            let b = m.is_empty();
            proof {
                assert(deep(*m).dom() =~= m@.dom());
                if deep(*m).dom() =~= Set::empty() {
                    assert(m@ =~= Map::empty());
                }
            }
            b
        },
        None => true,
    }
}

/// Whether two references to actions are equal.
pub fn same_action_uid<N: TypeName>(lhs: &ActionEntityUID<N>, rhs: &ActionEntityUID<N>) -> (b: bool)
    ensures
        b == (lhs@ == rhs@),
{
    let types = match (&lhs.ty, &rhs.ty) {
        (Some(l), Some(r)) => same_name(l, r),
        (None, None) => true,
        _ => false,
    };
    types && lhs.id == rhs.id
}

/// Whether two lists of references to actions are equal item by item.
pub fn same_action_uids<N: TypeName>(lhs: &Vec<ActionEntityUID<N>>, rhs: &Vec<ActionEntityUID<N>>) -> (b:
    bool)
    ensures
        b == (lhs@.map_values(|u: ActionEntityUID<N>| u@) == rhs@.map_values(
            |u: ActionEntityUID<N>| u@,
        )),
{
    let ghost lv = lhs@.map_values(|u: ActionEntityUID<N>| u@);
    let ghost rv = rhs@.map_values(|u: ActionEntityUID<N>| u@);
    if lhs.len() != rhs.len() {
        assert(lv.len() != rv.len());
        return false;
    }
    let mut i: usize = 0;
    while i < lhs.len()
        invariant
            i <= lhs.len(),
            lhs.len() == rhs.len(),
            lv == lhs@.map_values(|u: ActionEntityUID<N>| u@),
            rv == rhs@.map_values(|u: ActionEntityUID<N>| u@),
            forall|k: int| 0 <= k < i ==> lhs@[k]@ == rhs@[k]@,
        decreases lhs.len() - i,
    {
        if !same_action_uid(&lhs[i], &rhs[i]) {
            assert(lv[i as int] != rv[i as int]);
            return false;
        }
        i += 1;
    }
    assert(lv =~= rv);
    true
}

/// Whether the parents of two actions are equal.
pub fn same_members<N: TypeName>(
    lhs: &Option<Vec<ActionEntityUID<N>>>,
    rhs: &Option<Vec<ActionEntityUID<N>>>,
) -> (b: bool)
    ensures
        b == (member_of_view(*lhs) == member_of_view(*rhs)),
{
    match (lhs, rhs) {
        (Some(l), Some(r)) => same_action_uids(l, r),
        (None, None) => true,
        _ => false,
    }
}

/// Whether the parents of an action are absent or empty.
pub fn has_no_members<N: TypeName>(member_of: &Option<Vec<ActionEntityUID<N>>>) -> (b: bool)
    ensures
        b == no_members(member_of_view(*member_of)),
{
    match member_of {
        Some(v) => v.len() == 0,
        None => true,
    }
}

impl<N: TypeName> Equiv for ActionType<N> {
    open spec fn equivalent(lhs: &Self, rhs: &Self) -> bool {
        action_type_equiv(lhs@, rhs@)
    }

    /// The diagnosis of the annotations, or else that the attributes do not
    /// match, or else that the parents do not match, or else the diagnosis
    /// of the apply specs.
    open spec fn diagnosis(lhs: &Self, rhs: &Self) -> Seq<char> {
        if !annotations_equiv(lhs.annotations@, rhs.annotations@) {
            "mismatch in action annotations: "@ + Annotations::diagnosis(
                &lhs.annotations,
                &rhs.annotations,
            )
        } else if lhs@.attributes != rhs@.attributes && !(no_attributes(lhs@.attributes)
            && no_attributes(rhs@.attributes)) {
            "Attributes don't match"@
        } else if lhs@.member_of != rhs@.member_of && !(no_members(lhs@.member_of) && no_members(
            rhs@.member_of,
        )) {
            "Member-of doesn't match"@
        } else {
            applies_to_diagnosis(&lhs.applies_to, &rhs.applies_to)
        }
    }

    /// Actions: equivalent annotations; attributes equal or absent on both
    /// sides; parents equal or absent on both sides; agreeing apply specs.
    fn equiv(lhs: &Self, rhs: &Self) -> (res: Result<(), String>)
        ensures
            res is Ok <==> action_type_equiv(lhs@, rhs@),
            res matches Err(message) ==> message@ == Self::diagnosis(lhs, rhs),
    {
        match with_context(
            "mismatch in action annotations: ",
            Annotations::equiv(&lhs.annotations, &rhs.annotations),
        ) {
            Ok(()) => {},
            Err(e) => {
                return Err(e);
            },
        }
        if !same_attributes(&lhs.attributes, &rhs.attributes) && !(has_no_attributes(
            &lhs.attributes,
        ) && has_no_attributes(&rhs.attributes)) {
            Err(String::from_str("Attributes don't match"))
        } else if !same_members(&lhs.member_of, &rhs.member_of) && !(has_no_members(
            &lhs.member_of,
        ) && has_no_members(&rhs.member_of)) {
            Err(String::from_str("Member-of doesn't match"))
        } else {
            check_applies_to(&lhs.applies_to, &rhs.applies_to)
        }
    }
}

impl<N: TypeName> Equiv for NamespaceDefinition<N> {
    open spec fn equivalent(lhs: &Self, rhs: &Self) -> bool {
        namespace_equiv(lhs@, rhs@)
    }

    /// The diagnosis of the first of the four parts that are not
    /// equivalent, after the name of the part: annotations, entity types,
    /// common types, actions.
    open spec fn diagnosis(lhs: &Self, rhs: &Self) -> Seq<char> {
        if !annotations_equiv(lhs.annotations@, rhs.annotations@) {
            "mismatch in namespace annotations: "@ + Annotations::diagnosis(
                &lhs.annotations,
                &rhs.annotations,
            )
        } else if !AssocMap::equivalent(&lhs.entity_types, &rhs.entity_types) {
            "mismatch in entity type declarations: "@ + AssocMap::diagnosis(
                &lhs.entity_types,
                &rhs.entity_types,
            )
        } else if !AssocMap::equivalent(&lhs.common_types, &rhs.common_types) {
            "mismatch in common type declarations: "@ + AssocMap::diagnosis(
                &lhs.common_types,
                &rhs.common_types,
            )
        } else {
            "mismatch in action declarations: "@ + AssocMap::diagnosis(&lhs.actions, &rhs.actions)
        }
    }

    /// Namespaces: equivalent annotations, entity types, common types and
    /// actions. The diagnostic says in which of the four the mismatch lies.
    fn equiv(lhs: &Self, rhs: &Self) -> (res: Result<(), String>)
        ensures
            res is Ok <==> namespace_equiv(lhs@, rhs@),
            res matches Err(message) ==> message@ == Self::diagnosis(lhs, rhs),
    {
        proof {
            assert(lhs@.entity_types.dom() =~= lhs.entity_types@.dom());
            assert(rhs@.entity_types.dom() =~= rhs.entity_types@.dom());
            assert(lhs@.common_types.dom() =~= lhs.common_types@.dom());
            assert(rhs@.common_types.dom() =~= rhs.common_types@.dom());
            assert(lhs@.actions.dom() =~= lhs.actions@.dom());
            assert(rhs@.actions.dom() =~= rhs.actions@.dom());
        }
        match with_context(
            "mismatch in namespace annotations: ",
            Annotations::equiv(&lhs.annotations, &rhs.annotations),
        ) {
            Ok(()) => {},
            Err(e) => {
                return Err(e);
            },
        }
        match with_context(
            "mismatch in entity type declarations: ",
            Equiv::equiv(&lhs.entity_types, &rhs.entity_types),
        ) {
            Ok(()) => {},
            Err(e) => {
                return Err(e);
            },
        }
        match with_context(
            "mismatch in common type declarations: ",
            Equiv::equiv(&lhs.common_types, &rhs.common_types),
        ) {
            Ok(()) => {},
            Err(e) => {
                return Err(e);
            },
        }
        with_context(
            "mismatch in action declarations: ",
            Equiv::equiv(&lhs.actions, &rhs.actions),
        )
    }
}

/// Whether the namespace declares nothing: no entity type, no action and no
/// common type.
pub fn is_trivial_namespace<N: TypeName>(nsdef: &NamespaceDefinition<N>) -> (b: bool)
    ensures
        b == is_trivial(nsdef@),
{
    proof {
        assert(nsdef@.entity_types.dom() =~= nsdef.entity_types@.dom());
        assert(nsdef@.common_types.dom() =~= nsdef.common_types@.dom());
        assert(nsdef@.actions.dom() =~= nsdef.actions@.dom());
    }
    nsdef.entity_types.is_empty() && nsdef.actions.is_empty() && nsdef.common_types.is_empty()
}

} // verus!
