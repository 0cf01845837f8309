//! The mathematical model: what a schema is, and when two schemas are
//! equivalent.
//!
//! Every schema type has a view in this module. Maps are `Map`s, lists that
//! are read as sets are `Set`s, strings are sequences of characters, and a
//! type name is taken in its qualified form. The relations below are the
//! statements that the executable checks are proved to decide.
use vstd::prelude::*;

verus! {

/// A qualified name: a basename and the components of its namespace, the
/// outermost first.
pub struct NameView {
    pub basename: Seq<char>,
    pub namespace: Seq<Seq<char>>,
}

/// Annotation names with their values; `None` is an annotation without value.
pub type AnnotationsView = Map<Seq<char>, Option<Seq<char>>>;

/// A type expression: a type written in place, or a reference that has to
/// resolve to a common type.
pub enum TypeView {
    Type { ty: TypeVariantView },
    CommonTypeRef { name: NameView },
}

/// A type written in place.
#[allow(inconsistent_fields)]
pub enum TypeVariantView {
    String,
    Long,
    Boolean,
    SetOf { element: Box<TypeView> },
    Record(RecordTypeView),
    Entity { name: NameView },
    EntityOrCommon { name: NameView },
    Extension { name: Seq<char> },
}

/// A record type: its attributes, and whether others may occur.
pub struct RecordTypeView {
    pub attributes: Map<Seq<char>, TypeOfAttributeView>,
    pub additional_attributes: bool,
}

/// An attribute of a record type.
pub struct TypeOfAttributeView {
    pub ty: TypeView,
    pub annotations: AnnotationsView,
    pub required: bool,
}

/// A common type: a named alias of a type.
pub struct CommonTypeView {
    pub ty: TypeView,
    pub annotations: AnnotationsView,
}

/// An entity type that is not enumerated.
pub struct StandardEntityTypeView {
    pub member_of_types: Set<NameView>,
    pub shape: TypeView,
    pub tags: Option<TypeView>,
}

/// The two kinds of entity type.
pub enum EntityTypeKindView {
    Standard(StandardEntityTypeView),
    Enum { choices: Set<Seq<char>> },
}

/// An entity type declaration.
pub struct EntityTypeView {
    pub kind: EntityTypeKindView,
    pub annotations: AnnotationsView,
}

/// A reference to an action: its id and, if given, the type it belongs to.
pub struct ActionEntityUIDView {
    pub id: Seq<char>,
    pub ty: Option<NameView>,
}

/// What an action applies to.
pub struct ApplySpecView {
    pub resource_types: Set<NameView>,
    pub principal_types: Set<NameView>,
    pub context: TypeView,
}

/// An action declaration.
pub struct ActionTypeView {
    pub attributes: Option<Map<Seq<char>, Seq<char>>>,
    pub applies_to: Option<ApplySpecView>,
    pub member_of: Option<Seq<ActionEntityUIDView>>,
    pub annotations: AnnotationsView,
}

/// The declarations of one namespace.
pub struct NamespaceDefinitionView {
    pub common_types: Map<Seq<char>, CommonTypeView>,
    pub entity_types: Map<Seq<char>, EntityTypeView>,
    pub actions: Map<Seq<char>, ActionTypeView>,
    pub annotations: AnnotationsView,
}

/// A schema fragment: namespaces by name, `None` being the root namespace.
pub type FragmentView = Map<Option<Seq<char>>, NamespaceDefinitionView>;

/// The one namespace component under which the built-in types are reachable.
pub open spec fn reserved_namespace() -> Seq<char> {
    "__cedar"@
}

/// `name` is the built-in type called `expected`: its basename is `expected`
/// and its namespace is `__cedar` and nothing else.
pub open spec fn is_internal_name(name: NameView, expected: Seq<char>) -> bool {
    &&& name.basename == expected
    &&& name.namespace == seq![reserved_namespace()]
}

/// Two annotation values mean the same: a missing value and an empty one are
/// one thing, and two values that are there must be equal.
pub open spec fn annotation_value_equiv(lhs: Option<Seq<char>>, rhs: Option<Seq<char>>) -> bool {
    match (lhs, rhs) {
        (Some(a), Some(b)) => a == b,
        (Some(a), None) => a.len() == 0,
        (None, Some(b)) => b.len() == 0,
        (None, None) => true,
    }
}

/// Two annotation sets have the same names, with equivalent values.
pub open spec fn annotations_equiv(lhs: AnnotationsView, rhs: AnnotationsView) -> bool {
    &&& lhs.dom() == rhs.dom()
    &&& forall|k: Seq<char>| lhs.dom().contains(k) ==> annotation_value_equiv(lhs[k], rhs[k])
}

/// Equivalence of type expressions.
///
/// Two types written in place go by [`variant_equiv`]; two references to
/// common types must name the same type; a type written in place matches a
/// reference only if it is the ambiguous reference to that same name.
pub open spec fn type_equiv(lhs: TypeView, rhs: TypeView) -> bool
    decreases lhs,
{
    match (lhs, rhs) {
        (TypeView::Type { ty: a }, TypeView::Type { ty: b }) => variant_equiv(a, b),
        (TypeView::CommonTypeRef { name: a }, TypeView::CommonTypeRef { name: b }) => a
            == b,
        (TypeView::Type { ty }, TypeView::CommonTypeRef { name }) => ty
            == (TypeVariantView::EntityOrCommon { name }),
        (TypeView::CommonTypeRef { name }, TypeView::Type { ty }) => ty
            == (TypeVariantView::EntityOrCommon { name }),
    }
}

/// Equivalence of types written in place.
///
/// Records go by [`record_equiv`], sets by their element types. An ambiguous
/// reference stands for `String`, `Long`, `Boolean` or an extension type if
/// it names that type under `__cedar`, and for an entity type if it has the
/// same name. Every other pair is equivalent only if the two are equal.
pub open spec fn variant_equiv(lhs: TypeVariantView, rhs: TypeVariantView) -> bool
    decreases lhs,
{
    match (lhs, rhs) {
        (TypeVariantView::Record(a), TypeVariantView::Record(b)) => record_equiv(a, b),
        (TypeVariantView::SetOf { element: a }, TypeVariantView::SetOf { element: b }) => type_equiv(
            *a,
            *b,
        ),
        (TypeVariantView::String, TypeVariantView::EntityOrCommon { name }) => is_internal_name(
            name,
            "String"@,
        ),
        (TypeVariantView::EntityOrCommon { name }, TypeVariantView::String) => is_internal_name(
            name,
            "String"@,
        ),
        (TypeVariantView::Long, TypeVariantView::EntityOrCommon { name }) => is_internal_name(
            name,
            "Long"@,
        ),
        (TypeVariantView::EntityOrCommon { name }, TypeVariantView::Long) => is_internal_name(
            name,
            "Long"@,
        ),
        (TypeVariantView::Boolean, TypeVariantView::EntityOrCommon { name }) => is_internal_name(
            name,
            "Bool"@,
        ),
        (TypeVariantView::EntityOrCommon { name }, TypeVariantView::Boolean) => is_internal_name(
            name,
            "Bool"@,
        ),
        (
            TypeVariantView::Extension { name: extension },
            TypeVariantView::EntityOrCommon { name },
        ) => is_internal_name(name, extension),
        (
            TypeVariantView::EntityOrCommon { name },
            TypeVariantView::Extension { name: extension },
        ) => is_internal_name(name, extension),
        (TypeVariantView::Entity { name: entity }, TypeVariantView::EntityOrCommon { name }) => entity
            == name,
        (TypeVariantView::EntityOrCommon { name }, TypeVariantView::Entity { name: entity }) => entity
            == name,
        _ => lhs == rhs,
    }
}

/// Two record types have the same attribute names and the same flag, and
/// under each name equivalent attributes.
pub open spec fn record_equiv(lhs: RecordTypeView, rhs: RecordTypeView) -> bool
    decreases lhs,
{
    &&& lhs.attributes.dom() == rhs.attributes.dom()
    &&& lhs.additional_attributes == rhs.additional_attributes
    &&& forall|k: Seq<char>|
        lhs.attributes.dom().contains(k) ==> attribute_equiv(lhs.attributes[k], rhs.attributes[k])
}

/// Two attributes have equivalent annotations, the same required flag and
/// equivalent types.
pub open spec fn attribute_equiv(lhs: TypeOfAttributeView, rhs: TypeOfAttributeView) -> bool
    decreases lhs,
{
    &&& annotations_equiv(lhs.annotations, rhs.annotations)
    &&& lhs.required == rhs.required
    &&& type_equiv(lhs.ty, rhs.ty)
}

/// Two common types have equivalent annotations and equivalent types.
pub open spec fn common_type_equiv(lhs: CommonTypeView, rhs: CommonTypeView) -> bool {
    &&& annotations_equiv(lhs.annotations, rhs.annotations)
    &&& type_equiv(lhs.ty, rhs.ty)
}

/// Tag types agree: both absent, or both present and equivalent.
pub open spec fn tags_equiv(lhs: Option<TypeView>, rhs: Option<TypeView>) -> bool {
    match (lhs, rhs) {
        (Some(a), Some(b)) => type_equiv(a, b),
        (None, None) => true,
        _ => false,
    }
}

/// Two entity type kinds agree: two enumerations with the same choices, or
/// two standard types with the same parents, equivalent shapes and agreeing
/// tag types. An enumeration never matches a standard type.
pub open spec fn entity_kind_equiv(lhs: EntityTypeKindView, rhs: EntityTypeKindView) -> bool {
    match (lhs, rhs) {
        (EntityTypeKindView::Enum { choices: a }, EntityTypeKindView::Enum { choices: b }) => a
            == b,
        (EntityTypeKindView::Standard(a), EntityTypeKindView::Standard(b)) => {
            &&& a.member_of_types == b.member_of_types
            &&& type_equiv(a.shape, b.shape)
            &&& tags_equiv(a.tags, b.tags)
        },
        _ => false,
    }
}

/// Two entity types have equivalent annotations and agreeing kinds.
pub open spec fn entity_type_equiv(lhs: EntityTypeView, rhs: EntityTypeView) -> bool {
    &&& annotations_equiv(lhs.annotations, rhs.annotations)
    &&& entity_kind_equiv(lhs.kind, rhs.kind)
}

/// An apply spec that no request can meet: it has no principal type or no
/// resource type.
pub open spec fn either_empty(spec: ApplySpecView) -> bool {
    spec.principal_types.is_empty() || spec.resource_types.is_empty()
}

/// Two apply specs have equivalent contexts, the same principal types and
/// the same resource types.
pub open spec fn apply_spec_equiv(lhs: ApplySpecView, rhs: ApplySpecView) -> bool {
    &&& type_equiv(lhs.context, rhs.context)
    &&& lhs.principal_types == rhs.principal_types
    &&& lhs.resource_types == rhs.resource_types
}

/// What an action applies to agrees: an apply spec that no request can meet
/// counts as absent; two that can be met must be equivalent.
pub open spec fn applies_to_equiv(lhs: Option<ApplySpecView>, rhs: Option<ApplySpecView>) -> bool {
    match (lhs, rhs) {
        (None, None) => true,
        (Some(a), Some(b)) => (either_empty(a) && either_empty(b)) || apply_spec_equiv(a, b),
        (Some(a), None) => either_empty(a),
        (None, Some(b)) => either_empty(b),
    }
}

/// An optional map that is absent or has no entry.
pub open spec fn no_attributes(attributes: Option<Map<Seq<char>, Seq<char>>>) -> bool {
    match attributes {
        None => true,
        Some(m) => m.is_empty(),
    }
}

/// An optional list that is absent or has no item.
pub open spec fn no_members(member_of: Option<Seq<ActionEntityUIDView>>) -> bool {
    match member_of {
        None => true,
        Some(s) => s.len() == 0,
    }
}

/// Two actions have equivalent annotations; equal attributes, or none on
/// either side; equal parents, or none on either side; and agreeing apply
/// specs.
pub open spec fn action_type_equiv(lhs: ActionTypeView, rhs: ActionTypeView) -> bool {
    &&& annotations_equiv(lhs.annotations, rhs.annotations)
    &&& (lhs.attributes == rhs.attributes || (no_attributes(lhs.attributes) && no_attributes(
        rhs.attributes,
    )))
    &&& (lhs.member_of == rhs.member_of || (no_members(lhs.member_of) && no_members(
        rhs.member_of,
    )))
    &&& applies_to_equiv(lhs.applies_to, rhs.applies_to)
}

/// Two namespaces have equivalent annotations and, under the same names,
/// equivalent entity types, common types and actions.
pub open spec fn namespace_equiv(lhs: NamespaceDefinitionView, rhs: NamespaceDefinitionView) -> bool {
    &&& annotations_equiv(lhs.annotations, rhs.annotations)
    &&& lhs.entity_types.dom() == rhs.entity_types.dom()
    &&& forall|k: Seq<char>|
        lhs.entity_types.dom().contains(k) ==> entity_type_equiv(
            lhs.entity_types[k],
            rhs.entity_types[k],
        )
    &&& lhs.common_types.dom() == rhs.common_types.dom()
    &&& forall|k: Seq<char>|
        lhs.common_types.dom().contains(k) ==> common_type_equiv(
            lhs.common_types[k],
            rhs.common_types[k],
        )
    &&& lhs.actions.dom() == rhs.actions.dom()
    &&& forall|k: Seq<char>|
        lhs.actions.dom().contains(k) ==> action_type_equiv(lhs.actions[k], rhs.actions[k])
}

/// A namespace that declares nothing: no entity type, no common type and no
/// action.
pub open spec fn is_trivial(ns: NamespaceDefinitionView) -> bool {
    &&& ns.entity_types.is_empty()
    &&& ns.actions.is_empty()
    &&& ns.common_types.is_empty()
}

/// The names of the namespaces of a fragment that declare something.
pub open spec fn nontrivial_names(fragment: FragmentView) -> Set<Option<Seq<char>>> {
    Set::new(|n: Option<Seq<char>>| fragment.dom().contains(n) && !is_trivial(fragment[n]))
}

/// Two fragments are equivalent: leaving aside the namespaces that declare
/// nothing, they have the same number of namespaces, and every namespace of
/// the left fragment has an equivalent namespace of the same name in the
/// right one.
pub open spec fn fragment_equiv(lhs: FragmentView, rhs: FragmentView) -> bool {
    &&& nontrivial_names(lhs).len() == nontrivial_names(rhs).len()
    &&& forall|n: Option<Seq<char>>|
        nontrivial_names(lhs).contains(n) ==> rhs.dom().contains(n) && namespace_equiv(
            lhs[n],
            rhs[n],
        )
}

/// A type as the validator holds it: the text that denotes it.
pub type ValidatedTypeView = Seq<char>;

/// An attribute of a validated entity type.
pub struct AttributeTypeView {
    pub attr_type: ValidatedTypeView,
    pub is_required: bool,
}

/// The kind of a validated entity type. An enumerated type lists its
/// choices in their order.
pub enum ValidatorEntityTypeKindView {
    Standard,
    Enum(Seq<Seq<char>>),
}

/// An entity type as the validator holds it: the entity types below it, its
/// kind, its attributes and the type of its tags.
pub struct ValidatorEntityTypeView {
    pub descendants: Set<NameView>,
    pub kind: ValidatorEntityTypeKindView,
    pub attributes: Map<Seq<char>, AttributeTypeView>,
    pub tag_type: Option<ValidatedTypeView>,
}

/// A schema as the validator holds it: its entity types by name, and the
/// context types of its actions.
pub struct ValidatorSchemaView {
    pub entity_types: Map<NameView, ValidatorEntityTypeView>,
    pub action_contexts: Set<ValidatedTypeView>,
}

/// Two validated attributes have the same required flag and the same type.
pub open spec fn validated_attribute_equiv(lhs: AttributeTypeView, rhs: AttributeTypeView) -> bool {
    &&& lhs.is_required == rhs.is_required
    &&& lhs.attr_type == rhs.attr_type
}

/// Two validated entity types agree: two enumerations with the same choices
/// in the same order, or two standard types with the same descendants,
/// equivalent attributes under the same names, and the same tag type.
pub open spec fn validated_entity_type_equiv(
    lhs: ValidatorEntityTypeView,
    rhs: ValidatorEntityTypeView,
) -> bool {
    match (lhs.kind, rhs.kind) {
        (ValidatorEntityTypeKindView::Enum(a), ValidatorEntityTypeKindView::Enum(b)) => a == b,
        (ValidatorEntityTypeKindView::Standard, ValidatorEntityTypeKindView::Standard) => {
            &&& lhs.descendants == rhs.descendants
            &&& lhs.attributes.dom() == rhs.attributes.dom()
            &&& forall|k: Seq<char>|
                lhs.attributes.dom().contains(k) ==> validated_attribute_equiv(
                    lhs.attributes[k],
                    rhs.attributes[k],
                )
            &&& lhs.tag_type == rhs.tag_type
        },
        _ => false,
    }
}

/// Two validated schemas have equivalent entity types under the same names,
/// and the same context types.
pub open spec fn validated_schema_equiv(lhs: ValidatorSchemaView, rhs: ValidatorSchemaView) -> bool {
    &&& lhs.entity_types.dom() == rhs.entity_types.dom()
    &&& forall|k: NameView|
        lhs.entity_types.dom().contains(k) ==> validated_entity_type_equiv(
            lhs.entity_types[k],
            rhs.entity_types[k],
        )
    &&& lhs.action_contexts == rhs.action_contexts
}

} // verus!
