//! Equivalence of schemas as the validator holds them.
use crate::assoc::AssocMap;
use crate::atom::Atom;
use crate::equiv::{with_context, Equiv, ListSet};
use crate::model::{
    validated_attribute_equiv, validated_entity_type_equiv, validated_schema_equiv,
    AttributeTypeView, ValidatorEntityTypeKindView, ValidatorEntityTypeView, ValidatorSchemaView,
};
use crate::names::InternalName;
use crate::schema::deep;
use crate::text::{concat3, strings_eq, texts};
use vstd::prelude::*;
use vstd::string::*;

verus! {

/// A type as the validator holds it, kept as the text that denotes it. Two
/// types are the same type exactly when their texts are the same.
#[derive(Debug)]
pub struct Type(pub String);

/// An attribute of a validated entity type.
#[derive(Debug)]
pub struct AttributeType {
    pub attr_type: Type,
    pub is_required: bool,
}

/// The kind of a validated entity type. An enumerated type lists the ids
/// its entities may have.
#[derive(Debug)]
pub enum ValidatorEntityTypeKind {
    Standard,
    Enum(Vec<String>),
}

/// An entity type as the validator holds it. `descendants` are the entity
/// types whose entities may be members of entities of this type.
#[derive(Debug)]
pub struct ValidatorEntityType {
    pub descendants: ListSet<InternalName>,
    pub kind: ValidatorEntityTypeKind,
    pub attributes: AssocMap<String, AttributeType>,
    pub tag_type: Option<Type>,
}

/// A schema as the validator holds it: its entity types by name, and the
/// context type of each of its actions.
#[derive(Debug)]
pub struct ValidatorSchema {
    pub entity_types: AssocMap<InternalName, ValidatorEntityType>,
    pub action_contexts: ListSet<Type>,
}

impl View for Type {
    type V = Seq<char>;

    open spec fn view(&self) -> Seq<char> {
        self.0@
    }
}

impl Atom for Type {
    type Id = Seq<char>;

    open spec fn id(&self) -> Seq<char> {
        self.0@
    }

    open spec fn text(&self) -> Seq<char> {
        self.0@
    }

    fn same(&self, other: &Self) -> (b: bool)
        ensures
            b == (self@ == other@),
    {
        self.0 == other.0
    }

    fn render(&self) -> (s: String)
        ensures
            s@ == self@,
    {
        self.0.clone()
    }
}

impl View for AttributeType {
    type V = AttributeTypeView;

    open spec fn view(&self) -> AttributeTypeView {
        AttributeTypeView { attr_type: self.attr_type@, is_required: self.is_required }
    }
}

impl View for ValidatorEntityTypeKind {
    type V = ValidatorEntityTypeKindView;

    open spec fn view(&self) -> ValidatorEntityTypeKindView {
        match self {
            ValidatorEntityTypeKind::Standard => ValidatorEntityTypeKindView::Standard,
            ValidatorEntityTypeKind::Enum(choices) => ValidatorEntityTypeKindView::Enum(
                texts(choices@),
            ),
        }
    }
}

/// The view of a tag type that may be missing.
pub open spec fn tag_type_view(tag_type: Option<Type>) -> Option<Seq<char>> {
    match tag_type {
        Some(t) => Some(t@),
        None => None,
    }
}

impl View for ValidatorEntityType {
    type V = ValidatorEntityTypeView;

    open spec fn view(&self) -> ValidatorEntityTypeView {
        ValidatorEntityTypeView {
            descendants: self.descendants@,
            kind: self.kind@,
            attributes: deep(self.attributes),
            tag_type: tag_type_view(self.tag_type),
        }
    }
}

impl View for ValidatorSchema {
    type V = ValidatorSchemaView;

    open spec fn view(&self) -> ValidatorSchemaView {
        ValidatorSchemaView {
            entity_types: deep(self.entity_types),
            action_contexts: self.action_contexts@,
        }
    }
}

impl Equiv for Type {
    /// Validated types are equivalent only if they are the same type.
    open spec fn equivalent(lhs: &Self, rhs: &Self) -> bool {
        lhs@ == rhs@
    }

    /// Both types, as they are written.
    open spec fn diagnosis(lhs: &Self, rhs: &Self) -> Seq<char> {
        "types are not equal: "@ + lhs@ + " != "@ + rhs@
    }

    fn equiv(lhs: &Self, rhs: &Self) -> (res: Result<(), String>)
        ensures
            res is Ok <==> lhs@ == rhs@,
            res matches Err(message) ==> message@ == Self::diagnosis(lhs, rhs),
    {
        if lhs.same(rhs) {
            Ok(())
        } else {
            let mut message = concat3("types are not equal: ", lhs.0.as_str(), " != ");
            message.append(rhs.0.as_str());
            Err(message)
        }
    }
}

impl Equiv for AttributeType {
    open spec fn equivalent(lhs: &Self, rhs: &Self) -> bool {
        validated_attribute_equiv(lhs@, rhs@)
    }

    /// That the required flags differ, or else the diagnosis of the types.
    open spec fn diagnosis(lhs: &Self, rhs: &Self) -> Seq<char> {
        if lhs.is_required != rhs.is_required {
            "attributes differ in required flag"@
        } else {
            Type::diagnosis(&lhs.attr_type, &rhs.attr_type)
        }
    }

    /// Validated attributes: the same required flag, then the same type.
    fn equiv(lhs: &Self, rhs: &Self) -> (res: Result<(), String>)
        ensures
            res is Ok <==> validated_attribute_equiv(lhs@, rhs@),
            res matches Err(message) ==> message@ == Self::diagnosis(lhs, rhs),
    {
        if lhs.is_required != rhs.is_required {
            return Err(String::from_str("attributes differ in required flag"));
        }
        Type::equiv(&lhs.attr_type, &rhs.attr_type)
    }
}

/// Whether two tag types are the same: both missing, or the same type.
pub fn same_tag_type(lhs: &Option<Type>, rhs: &Option<Type>) -> (b: bool)
    ensures
        b == (tag_type_view(*lhs) == tag_type_view(*rhs)),
{
    match (lhs, rhs) {
        (Some(l), Some(r)) => l.same(r),
        (None, None) => true,
        _ => false,
    }
}

/// How a diagnostic writes a tag type that may be missing.
pub open spec fn tag_type_text_of(tag_type: Option<Type>) -> Seq<char> {
    match tag_type {
        Some(t) => t@,
        None => "None"@,
    }
}

/// How a diagnostic writes a tag type that may be missing.
pub fn tag_type_text(tag_type: &Option<Type>) -> (s: String)
    ensures
        s@ == tag_type_text_of(*tag_type),
{
    match tag_type {
        Some(t) => t.render(),
        None => String::from_str("None"),
    }
}

/// What [`check_validated_standard`] says of two standard types that do
/// not agree: the descendants that only one side has, or the diagnosis of
/// the attributes, or the two tag types.
pub open spec fn validated_standard_diagnosis(
    lhs: &ValidatorEntityType,
    rhs: &ValidatorEntityType,
) -> Seq<char> {
    if lhs@.descendants != rhs@.descendants {
        ListSet::diagnosis(&lhs.descendants, &rhs.descendants)
    } else if !AssocMap::equivalent(&lhs.attributes, &rhs.attributes) {
        AssocMap::diagnosis(&lhs.attributes, &rhs.attributes)
    } else {
        "encountered different tags types: "@ + tag_type_text_of(lhs.tag_type) + " and "@
            + tag_type_text_of(rhs.tag_type)
    }
}

/// Decides the rule for two standard validated entity types: the same
/// descendants, equivalent attributes, the same tag type.
pub fn check_validated_standard(lhs: &ValidatorEntityType, rhs: &ValidatorEntityType) -> (res:
    Result<(), String>)
    ensures
        res is Ok <==> {
            &&& lhs@.descendants == rhs@.descendants
            &&& lhs@.attributes.dom() == rhs@.attributes.dom()
            &&& forall|k: Seq<char>|
                lhs@.attributes.dom().contains(k) ==> validated_attribute_equiv(
                    lhs@.attributes[k],
                    rhs@.attributes[k],
                )
            &&& lhs@.tag_type == rhs@.tag_type
        },
        res matches Err(message) ==> message@ == validated_standard_diagnosis(lhs, rhs),
{
    proof {
        assert(lhs@.attributes.dom() =~= lhs.attributes@.dom());
        assert(rhs@.attributes.dom() =~= rhs.attributes@.dom());
    }
    match Equiv::equiv(&lhs.descendants, &rhs.descendants) {
        Ok(()) => {},
        Err(e) => {
            return Err(e);
        },
    }
    match Equiv::equiv(&lhs.attributes, &rhs.attributes) {
        Ok(()) => {},
        Err(e) => {
            return Err(e);
        },
    }
    if !same_tag_type(&lhs.tag_type, &rhs.tag_type) {
        let mut message = concat3(
            "encountered different tags types: ",
            tag_type_text(&lhs.tag_type).as_str(),
            " and ",
        );
        message.append(tag_type_text(&rhs.tag_type).as_str());
        return Err(message);
    }
    Ok(())
}

impl Equiv for ValidatorEntityType {
    open spec fn equivalent(lhs: &Self, rhs: &Self) -> bool {
        validated_entity_type_equiv(lhs@, rhs@)
    }

    /// That the choices of two enumerations differ, the diagnosis of two
    /// standard types, or that the kinds differ.
    open spec fn diagnosis(lhs: &Self, rhs: &Self) -> Seq<char> {
        match (lhs.kind, rhs.kind) {
            (
                ValidatorEntityTypeKind::Enum(_),
                ValidatorEntityTypeKind::Enum(_),
            ) => "enumerated entity types have different eid choices"@,
            (
                ValidatorEntityTypeKind::Standard,
                ValidatorEntityTypeKind::Standard,
            ) => validated_standard_diagnosis(lhs, rhs),
            _ => "different entity type kind"@,
        }
    }

    /// Validated entity types: enumerations by their choices, standard types
    /// by descendants, attributes and tag type.
    fn equiv(lhs: &Self, rhs: &Self) -> (res: Result<(), String>)
        ensures
            res is Ok <==> validated_entity_type_equiv(lhs@, rhs@),
            res matches Err(message) ==> message@ == Self::diagnosis(lhs, rhs),
    {
        match (&lhs.kind, &rhs.kind) {
            (ValidatorEntityTypeKind::Enum(c1), ValidatorEntityTypeKind::Enum(c2)) => {
                if strings_eq(c1, c2) {
                    Ok(())
                } else {
                    Err(String::from_str("enumerated entity types have different eid choices"))
                }
            },
            (ValidatorEntityTypeKind::Standard, ValidatorEntityTypeKind::Standard) => {
                check_validated_standard(lhs, rhs)
            },
            _ => Err(String::from_str("different entity type kind")),
        }
    }
}

impl Equiv for ValidatorSchema {
    open spec fn equivalent(lhs: &Self, rhs: &Self) -> bool {
        validated_schema_equiv(lhs@, rhs@)
    }

    /// The diagnosis of the entity types, or else the context types that
    /// only one side has.
    open spec fn diagnosis(lhs: &Self, rhs: &Self) -> Seq<char> {
        if !AssocMap::equivalent(&lhs.entity_types, &rhs.entity_types) {
            "entity attributes are not equivalent: "@ + AssocMap::diagnosis(
                &lhs.entity_types,
                &rhs.entity_types,
            )
        } else {
            "contexts are not equivalent: "@ + ListSet::diagnosis(
                &lhs.action_contexts,
                &rhs.action_contexts,
            )
        }
    }

    /// Validated schemas: equivalent entity types under the same names, and
    /// the same set of context types.
    fn equiv(lhs: &Self, rhs: &Self) -> (res: Result<(), String>)
        ensures
            res is Ok <==> validated_schema_equiv(lhs@, rhs@),
            res matches Err(message) ==> message@ == Self::diagnosis(lhs, rhs),
    {
        proof {
            assert(lhs@.entity_types.dom() =~= lhs.entity_types@.dom());
            assert(rhs@.entity_types.dom() =~= rhs.entity_types@.dom());
        }
        match with_context(
            "entity attributes are not equivalent: ",
            Equiv::equiv(&lhs.entity_types, &rhs.entity_types),
        ) {
            Ok(()) => {},
            Err(e) => {
                return Err(e);
            },
        }
        with_context(
            "contexts are not equivalent: ",
            Equiv::equiv(&lhs.action_contexts, &rhs.action_contexts),
        )
    }
}

} // verus!
