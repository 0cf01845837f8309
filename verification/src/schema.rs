//! The schema types, and their views in the model.
use crate::assoc::AssocMap;
use crate::atom::Atom;
use crate::model::{
    ActionEntityUIDView, ActionTypeView, AnnotationsView, ApplySpecView, CommonTypeView,
    EntityTypeKindView, EntityTypeView, FragmentView, NamespaceDefinitionView, RecordTypeView,
    StandardEntityTypeView, TypeOfAttributeView, TypeVariantView, TypeView,
};
use crate::names::{name_set, TypeName};
use crate::text::texts;
use vstd::prelude::*;

verus! {

/// The value of an annotation.
#[derive(Debug)]
pub struct Annotation {
    pub val: String,
}

/// Annotation names with their values. An annotation may have no value.
#[derive(Debug)]
pub struct Annotations(pub AssocMap<String, Option<Annotation>>);

/// A type expression: a type written in place, or a reference that has to
/// resolve to a common type.
#[derive(Debug)]
pub enum Type<N> {
    Type { ty: TypeVariant<N> },
    CommonTypeRef { name: N },
}

/// A type written in place. `EntityOrCommon` is a reference that may resolve
/// to an entity type or to a common type.
#[derive(Debug)]
#[allow(inconsistent_fields)]
pub enum TypeVariant<N> {
    String,
    Long,
    Boolean,
    SetOf { element: Box<Type<N>> },
    Record(RecordType<N>),
    Entity { name: N },
    EntityOrCommon { name: N },
    Extension { name: String },
}

/// A record type: its attributes by name, and whether a record may have
/// attributes that are not listed.
#[derive(Debug)]
pub struct RecordType<N> {
    pub attributes: AssocMap<String, TypeOfAttribute<N>>,
    pub additional_attributes: bool,
}

/// An attribute of a record type.
#[derive(Debug)]
pub struct TypeOfAttribute<N> {
    pub ty: Type<N>,
    pub annotations: Annotations,
    pub required: bool,
}

/// The shape of an entity type, or the context of an action.
#[derive(Debug)]
pub struct AttributesOrContext<N>(pub Type<N>);

/// A common type: a named alias of a type.
#[derive(Debug)]
pub struct CommonType<N> {
    pub ty: Type<N>,
    pub annotations: Annotations,
}

/// An entity type that is not enumerated: the types it may be a member of,
/// its attributes, and the type of its tags if it has tags.
#[derive(Debug)]
pub struct StandardEntityType<N> {
    pub member_of_types: Vec<N>,
    pub shape: AttributesOrContext<N>,
    pub tags: Option<Type<N>>,
}

/// The two kinds of entity type. An enumerated type lists the ids its
/// entities may have.
#[derive(Debug)]
pub enum EntityTypeKind<N> {
    Standard(StandardEntityType<N>),
    Enum { choices: Vec<String> },
}

/// An entity type declaration.
#[derive(Debug)]
pub struct EntityType<N> {
    pub kind: EntityTypeKind<N>,
    pub annotations: Annotations,
}

/// A reference to an action: its id and, if given, the type it belongs to.
#[derive(Debug)]
pub struct ActionEntityUID<N> {
    pub id: String,
    pub ty: Option<N>,
}

/// What an action applies to: the types of its principals and resources,
/// and the shape of its context.
#[derive(Debug)]
pub struct ApplySpec<N> {
    pub resource_types: Vec<N>,
    pub principal_types: Vec<N>,
    pub context: AttributesOrContext<N>,
}

/// An action declaration. The value of an attribute is held as text.
#[derive(Debug)]
pub struct ActionType<N> {
    pub attributes: Option<AssocMap<String, String>>,
    pub applies_to: Option<ApplySpec<N>>,
    pub member_of: Option<Vec<ActionEntityUID<N>>>,
    pub annotations: Annotations,
}

/// The declarations of one namespace.
#[derive(Debug)]
pub struct NamespaceDefinition<N> {
    pub common_types: AssocMap<String, CommonType<N>>,
    pub entity_types: AssocMap<String, EntityType<N>>,
    pub actions: AssocMap<String, ActionType<N>>,
    pub annotations: Annotations,
}

/// A schema fragment: namespaces by name. The name `None` is the root
/// namespace.
#[derive(Debug)]
pub struct Fragment<N>(pub AssocMap<Option<String>, NamespaceDefinition<N>>);

/// The view of an annotation value that may be missing.
pub open spec fn annotation_view(value: Option<Annotation>) -> Option<Seq<char>> {
    match value {
        Some(a) => Some(a.val@),
        None => None,
    }
}

impl View for Annotations {
    type V = AnnotationsView;

    open spec fn view(&self) -> AnnotationsView {
        Map::new(|k: Seq<char>| self.0@.dom().contains(k), |k: Seq<char>| annotation_view(self.0@[k]))
    }
}

/// The view of a map whose values have views: the same keys, with the view
/// of each value.
pub open spec fn deep<K: Atom, V: View>(m: AssocMap<K, V>) -> Map<K::Id, V::V> {
    Map::new(|k: K::Id| m@.dom().contains(k), |k: K::Id| m@[k]@)
}

/// The view of a type expression.
pub open spec fn type_view<N: TypeName>(t: Type<N>) -> TypeView
    decreases t,
{
    match t {
        Type::Type { ty } => TypeView::Type { ty: variant_view(ty) },
        Type::CommonTypeRef { name } => TypeView::CommonTypeRef { name: name.qualified() },
    }
}

/// The view of a type written in place.
pub open spec fn variant_view<N: TypeName>(v: TypeVariant<N>) -> TypeVariantView
    decreases v,
{
    match v {
        TypeVariant::String => TypeVariantView::String,
        TypeVariant::Long => TypeVariantView::Long,
        TypeVariant::Boolean => TypeVariantView::Boolean,
        TypeVariant::SetOf { element } => TypeVariantView::SetOf {
            element: Box::new(type_view(*element)),
        },
        TypeVariant::Record(r) => TypeVariantView::Record(record_view(r)),
        TypeVariant::Entity { name } => TypeVariantView::Entity { name: name.qualified() },
        TypeVariant::EntityOrCommon { name } => TypeVariantView::EntityOrCommon {
            name: name.qualified(),
        },
        TypeVariant::Extension { name } => TypeVariantView::Extension { name: name@ },
    }
}

/// The view of a record type.
pub open spec fn record_view<N: TypeName>(r: RecordType<N>) -> RecordTypeView
    decreases r,
{
    RecordTypeView {
        attributes: Map::new(
            |k: Seq<char>| r.attributes@.dom().contains(k),
            |k: Seq<char>|
                if r.attributes@.dom().contains(k) {
                    proof {
                        r.attributes.lemma_value_decreases(k);
                    }
                    attribute_view(r.attributes@[k])
                } else {
                    arbitrary()
                },
        ),
        additional_attributes: r.additional_attributes,
    }
}

/// The view of an attribute.
pub open spec fn attribute_view<N: TypeName>(a: TypeOfAttribute<N>) -> TypeOfAttributeView
    decreases a,
{
    TypeOfAttributeView { ty: type_view(a.ty), annotations: a.annotations@, required: a.required }
}

impl<N: TypeName> View for Type<N> {
    type V = TypeView;

    open spec fn view(&self) -> TypeView {
        type_view(*self)
    }
}

impl<N: TypeName> View for TypeVariant<N> {
    type V = TypeVariantView;

    open spec fn view(&self) -> TypeVariantView {
        variant_view(*self)
    }
}

impl<N: TypeName> View for RecordType<N> {
    type V = RecordTypeView;

    open spec fn view(&self) -> RecordTypeView {
        record_view(*self)
    }
}

impl<N: TypeName> View for TypeOfAttribute<N> {
    type V = TypeOfAttributeView;

    open spec fn view(&self) -> TypeOfAttributeView {
        attribute_view(*self)
    }
}

impl<N: TypeName> View for AttributesOrContext<N> {
    type V = TypeView;

    open spec fn view(&self) -> TypeView {
        self.0@
    }
}

impl<N: TypeName> View for CommonType<N> {
    type V = CommonTypeView;

    open spec fn view(&self) -> CommonTypeView {
        CommonTypeView { ty: self.ty@, annotations: self.annotations@ }
    }
}

/// The view of a tag type that may be missing.
pub open spec fn tags_view<N: TypeName>(tags: Option<Type<N>>) -> Option<TypeView> {
    match tags {
        Some(t) => Some(t@),
        None => None,
    }
}

impl<N: TypeName> View for StandardEntityType<N> {
    type V = StandardEntityTypeView;

    open spec fn view(&self) -> StandardEntityTypeView {
        StandardEntityTypeView {
            member_of_types: name_set(self.member_of_types@),
            shape: self.shape@,
            tags: tags_view(self.tags),
        }
    }
}

impl<N: TypeName> View for EntityTypeKind<N> {
    type V = EntityTypeKindView;

    open spec fn view(&self) -> EntityTypeKindView {
        match self {
            EntityTypeKind::Standard(s) => EntityTypeKindView::Standard(s@),
            EntityTypeKind::Enum { choices } => EntityTypeKindView::Enum {
                choices: texts(choices@).to_set(),
            },
        }
    }
}

impl<N: TypeName> View for EntityType<N> {
    type V = EntityTypeView;

    open spec fn view(&self) -> EntityTypeView {
        EntityTypeView { kind: self.kind@, annotations: self.annotations@ }
    }
}

impl<N: TypeName> View for ActionEntityUID<N> {
    type V = ActionEntityUIDView;

    open spec fn view(&self) -> ActionEntityUIDView {
        ActionEntityUIDView {
            id: self.id@,
            ty: match self.ty {
                Some(n) => Some(n.qualified()),
                None => None,
            },
        }
    }
}

impl<N: TypeName> View for ApplySpec<N> {
    type V = ApplySpecView;

    open spec fn view(&self) -> ApplySpecView {
        ApplySpecView {
            resource_types: name_set(self.resource_types@),
            principal_types: name_set(self.principal_types@),
            context: self.context@,
        }
    }
}

/// The view of the attributes of an action.
pub open spec fn action_attributes_view(attributes: Option<AssocMap<String, String>>) -> Option<
    Map<Seq<char>, Seq<char>>,
> {
    match attributes {
        Some(m) => Some(deep(m)),
        None => None,
    }
}

/// The view of the parents of an action.
pub open spec fn member_of_view<N: TypeName>(member_of: Option<Vec<ActionEntityUID<N>>>) -> Option<
    Seq<ActionEntityUIDView>,
> {
    match member_of {
        Some(v) => Some(v@.map_values(|u: ActionEntityUID<N>| u@)),
        None => None,
    }
}

/// The view of the apply spec of an action.
pub open spec fn applies_to_view<N: TypeName>(applies_to: Option<ApplySpec<N>>) -> Option<
    ApplySpecView,
> {
    match applies_to {
        Some(s) => Some(s@),
        None => None,
    }
}

impl<N: TypeName> View for ActionType<N> {
    type V = ActionTypeView;

    open spec fn view(&self) -> ActionTypeView {
        ActionTypeView {
            attributes: action_attributes_view(self.attributes),
            applies_to: applies_to_view(self.applies_to),
            member_of: member_of_view(self.member_of),
            annotations: self.annotations@,
        }
    }
}

impl<N: TypeName> View for NamespaceDefinition<N> {
    type V = NamespaceDefinitionView;

    open spec fn view(&self) -> NamespaceDefinitionView {
        NamespaceDefinitionView {
            common_types: deep(self.common_types),
            entity_types: deep(self.entity_types),
            actions: deep(self.actions),
            annotations: self.annotations@,
        }
    }
}

impl<N: TypeName> View for Fragment<N> {
    type V = FragmentView;

    open spec fn view(&self) -> FragmentView {
        deep(self.0)
    }
}

} // verus!
