//! Equivalence of type expressions, record types and attributes.
use crate::atom::Atom;
use crate::equiv::{same_name, with_context, Equiv};
use crate::model::{
    annotations_equiv, attribute_equiv, is_internal_name, record_equiv, type_equiv, variant_equiv,
    TypeVariantView,
};
use crate::names::{is_internal_type, TypeName};
use crate::schema::{
    Annotations, AttributesOrContext, RecordType, Type, TypeOfAttribute, TypeVariant,
};
use crate::text::{concat3, concat5};
use vstd::prelude::*;
use vstd::string::*;

verus! {

/// How a diagnostic writes a name: in its qualified form.
pub open spec fn name_text_of<N: TypeName>(name: &N) -> Seq<char> {
    crate::names::name_text(name.qualified())
}

/// How a diagnostic writes a name: in its qualified form.
pub fn name_text<N: TypeName>(name: &N) -> (s: String)
    ensures
        s@ == name_text_of(name),
{
    name.qualify().render()
}

/// The word by which a diagnostic calls a type written in place.
pub open spec fn variant_word_of<N: TypeName>(ty: &TypeVariant<N>) -> Seq<char> {
    match ty {
        TypeVariant::String => "String"@,
        TypeVariant::Long => "Long"@,
        TypeVariant::Boolean => "Boolean"@,
        TypeVariant::SetOf { .. } => "Set"@,
        TypeVariant::Record(_) => "Record"@,
        TypeVariant::Entity { name } => "Entity `"@ + name_text_of(name) + "`"@,
        TypeVariant::EntityOrCommon { name } => "EntityOrCommon `"@ + name_text_of(name) + "`"@,
        TypeVariant::Extension { name } => "Extension `"@ + name@ + "`"@,
    }
}

/// The word by which a diagnostic calls a type written in place.
pub fn variant_word<N: TypeName>(ty: &TypeVariant<N>) -> (s: String)
    ensures
        s@ == variant_word_of(ty),
{
    match ty {
        TypeVariant::String => String::from_str("String"),
        TypeVariant::Long => String::from_str("Long"),
        TypeVariant::Boolean => String::from_str("Boolean"),
        TypeVariant::SetOf { .. } => String::from_str("Set"),
        TypeVariant::Record(_) => String::from_str("Record"),
        TypeVariant::Entity { name } => concat3("Entity `", name_text(name).as_str(), "`"),
        TypeVariant::EntityOrCommon { name } => concat3(
            "EntityOrCommon `",
            name_text(name).as_str(),
            "`",
        ),
        TypeVariant::Extension { name } => concat3("Extension `", name.as_str(), "`"),
    }
}

/// The diagnosis of an ambiguous reference that is not the built-in type
/// written as `shown`.
pub open spec fn internal_diagnosis<N: TypeName>(name: &N, shown: Seq<char>) -> Seq<char> {
    "entity-or-common `"@ + name_text_of(name) + "` is not equivalent to "@ + shown
}

/// An ambiguous reference against a built-in type: the reference has to be
/// the name `expected` under `__cedar`.
pub fn check_internal<N: TypeName>(name: &N, expected: &str, shown: &str) -> (res: Result<
    (),
    String,
>)
    ensures
        res is Ok <==> is_internal_name(name.qualified(), expected@),
        res matches Err(message) ==> message@ == internal_diagnosis(name, shown@),
{
    if is_internal_type(name, expected) {
        Ok(())
    } else {
        let mut message = concat3(
            "entity-or-common `",
            name_text(name).as_str(),
            "` is not equivalent to ",
        );
        message.append(shown);
        Err(message)
    }
}

/// How a diagnostic writes an extension type.
pub open spec fn extension_word(extension: Seq<char>) -> Seq<char> {
    "Extension `"@ + extension + "`"@
}

/// The diagnosis of a type written in place that is not the ambiguous
/// reference to the common type `name`.
pub open spec fn common_ref_diagnosis<N: TypeName>(ty: &TypeVariant<N>, name: &N) -> Seq<char> {
    "Common-type `"@ + name_text_of(name) + "` is not equivalent to non-common-type "@
        + variant_word_of(ty)
}

/// A type written in place against a reference to the common type `name`:
/// equivalent only if the type is the ambiguous reference to the same name.
pub fn check_common_ref<N: TypeName>(ty: &TypeVariant<N>, name: &N) -> (res: Result<(), String>)
    ensures
        res is Ok <==> ty@ == (TypeVariantView::EntityOrCommon { name: name.qualified() }),
        res matches Err(message) ==> message@ == common_ref_diagnosis(ty, name),
{
    let same = match ty {
        TypeVariant::EntityOrCommon { name: other } => same_name(name, other),
        _ => false,
    };
    if same {
        Ok(())
    } else {
        let mut message = concat3(
            "Common-type `",
            name_text(name).as_str(),
            "` is not equivalent to non-common-type ",
        );
        message.append(variant_word(ty).as_str());
        Err(message)
    }
}

/// The diagnosis of two references to common types of different names.
pub open spec fn common_names_diagnosis<N: TypeName>(lhs: &N, rhs: &N) -> Seq<char> {
    "common type names do not match: `"@ + name_text_of(lhs) + "` != `"@ + name_text_of(rhs)
        + "`"@
}

/// The diagnosis of an entity type and an ambiguous reference of different
/// names.
pub open spec fn entity_ref_diagnosis<N: TypeName>(entity: &N, name: &N) -> Seq<char> {
    "entity `"@ + name_text_of(entity) + "` is not equivalent to entity-or-common `"@
        + name_text_of(name) + "`"@
}

/// The diagnosis of two types that would have to be equal.
pub open spec fn unequal_diagnosis() -> Seq<char> {
    "types are not equivalent"@
}

/// The diagnosis of two record types that do not have the same attribute
/// names.
pub open spec fn keysets_diagnosis() -> Seq<char> {
    "records are not equivalent because they have different keysets"@
}

/// The diagnosis of two record types with different flags.
pub open spec fn flags_diagnosis() -> Seq<char> {
    "records are not equivalent because they have different additional_attributes flags"@
}

/// What [`check_type`] says of two type expressions that are not
/// equivalent.
pub open spec fn type_diagnosis<N: TypeName>(lhs: &Type<N>, rhs: &Type<N>) -> Seq<char>
    decreases lhs, 0nat,
{
    match (lhs, rhs) {
        (Type::Type { ty: l }, Type::Type { ty: r }) => variant_diagnosis(l, r),
        (
            Type::CommonTypeRef { name: l },
            Type::CommonTypeRef { name: r },
        ) => common_names_diagnosis(l, r),
        (Type::Type { ty }, Type::CommonTypeRef { name }) => common_ref_diagnosis(ty, name),
        (Type::CommonTypeRef { name }, Type::Type { ty }) => common_ref_diagnosis(ty, name),
    }
}

/// What [`check_variant`] says of two types written in place that are not
/// equivalent: the diagnosis of the records or of the element types, what
/// the ambiguous reference fails to be, or that the types are not equal.
pub open spec fn variant_diagnosis<N: TypeName>(lhs: &TypeVariant<N>, rhs: &TypeVariant<N>) -> Seq<
    char,
>
    decreases lhs, 0nat,
{
    match (lhs, rhs) {
        (TypeVariant::Record(l), TypeVariant::Record(r)) => record_diagnosis(l, r),
        (TypeVariant::SetOf { element: l }, TypeVariant::SetOf { element: r }) => type_diagnosis(
            &**l,
            &**r,
        ),
        (TypeVariant::String, TypeVariant::EntityOrCommon { name }) => internal_diagnosis(
            name,
            "String"@,
        ),
        (TypeVariant::EntityOrCommon { name }, TypeVariant::String) => internal_diagnosis(
            name,
            "String"@,
        ),
        (TypeVariant::Long, TypeVariant::EntityOrCommon { name }) => internal_diagnosis(
            name,
            "Long"@,
        ),
        (TypeVariant::EntityOrCommon { name }, TypeVariant::Long) => internal_diagnosis(
            name,
            "Long"@,
        ),
        (TypeVariant::Boolean, TypeVariant::EntityOrCommon { name }) => internal_diagnosis(
            name,
            "Boolean"@,
        ),
        (TypeVariant::EntityOrCommon { name }, TypeVariant::Boolean) => internal_diagnosis(
            name,
            "Boolean"@,
        ),
        (
            TypeVariant::Extension { name: extension },
            TypeVariant::EntityOrCommon { name },
        ) => internal_diagnosis(name, extension_word(extension@)),
        (
            TypeVariant::EntityOrCommon { name },
            TypeVariant::Extension { name: extension },
        ) => internal_diagnosis(name, extension_word(extension@)),
        (
            TypeVariant::Entity { name: entity },
            TypeVariant::EntityOrCommon { name },
        ) => entity_ref_diagnosis(entity, name),
        (
            TypeVariant::EntityOrCommon { name },
            TypeVariant::Entity { name: entity },
        ) => entity_ref_diagnosis(entity, name),
        _ => unequal_diagnosis(),
    }
}

/// What [`check_record`] says of two record types that are not equivalent:
/// that the attribute names differ, that the flags differ, or the diagnosis
/// of the first attribute of the left record that has no equivalent.
pub open spec fn record_diagnosis<N: TypeName>(lhs: &RecordType<N>, rhs: &RecordType<N>) -> Seq<
    char,
>
    decreases lhs, lhs.attributes.entries().len() + 1,
{
    if lhs.attributes@.dom() != rhs.attributes@.dom() {
        keysets_diagnosis()
    } else if lhs.additional_attributes != rhs.additional_attributes {
        flags_diagnosis()
    } else {
        first_attribute_diagnosis(lhs, rhs, 0)
    }
}

/// The diagnosis of the first attribute of `lhs`, from position `i` on, that
/// is not equivalent to the attribute of the same name in `rhs`.
pub open spec fn first_attribute_diagnosis<N: TypeName>(
    lhs: &RecordType<N>,
    rhs: &RecordType<N>,
    i: int,
) -> Seq<char>
    decreases lhs, lhs.attributes.entries().len() - i,
{
    if 0 <= i < lhs.attributes.entries().len() {
        let entry = lhs.attributes.entries()[i];
        let other = rhs.attributes@[entry.0@];
        if attribute_equiv(entry.1@, other@) {
            first_attribute_diagnosis(lhs, rhs, i + 1)
        } else {
            proof {
                lhs.attributes.lemma_entry_decreases(i);
            }
            attribute_diagnosis(&entry.1, &other)
        }
    } else {
        Seq::empty()
    }
}

/// What [`check_attribute`] says of two attributes that are not equivalent:
/// the diagnosis of their annotations, that their required flags differ, or
/// the diagnosis of their types.
pub open spec fn attribute_diagnosis<N: TypeName>(
    lhs: &TypeOfAttribute<N>,
    rhs: &TypeOfAttribute<N>,
) -> Seq<char>
    decreases lhs, 0nat,
{
    if !annotations_equiv(lhs.annotations@, rhs.annotations@) {
        "mismatch in type of attribute annotations: "@ + Annotations::diagnosis(
            &lhs.annotations,
            &rhs.annotations,
        )
    } else if lhs.required != rhs.required {
        "attributes differ in required flag"@
    } else {
        type_diagnosis(&lhs.ty, &rhs.ty)
    }
}

/// Decides [`type_equiv`].
pub fn check_type<N: TypeName>(lhs: &Type<N>, rhs: &Type<N>) -> (res: Result<(), String>)
    ensures
        res is Ok <==> type_equiv(lhs@, rhs@),
        res matches Err(message) ==> message@ == type_diagnosis(lhs, rhs),
    decreases lhs,
{
    match (lhs, rhs) {
        (Type::Type { ty: l }, Type::Type { ty: r }) => check_variant(l, r),
        (Type::CommonTypeRef { name: l }, Type::CommonTypeRef { name: r }) => {
            if same_name(l, r) {
                Ok(())
            } else {
                Err(
                    concat5(
                        "common type names do not match: `",
                        name_text(l).as_str(),
                        "` != `",
                        name_text(r).as_str(),
                        "`",
                    ),
                )
            }
        },
        (Type::Type { ty }, Type::CommonTypeRef { name }) => check_common_ref(ty, name),
        (Type::CommonTypeRef { name }, Type::Type { ty }) => check_common_ref(ty, name),
    }
}

/// Decides [`variant_equiv`].
pub fn check_variant<N: TypeName>(lhs: &TypeVariant<N>, rhs: &TypeVariant<N>) -> (res: Result<
    (),
    String,
>)
    ensures
        res is Ok <==> variant_equiv(lhs@, rhs@),
        res matches Err(message) ==> message@ == variant_diagnosis(lhs, rhs),
    decreases lhs,
{
    match (lhs, rhs) {
        (TypeVariant::Record(l), TypeVariant::Record(r)) => check_record(l, r),
        (TypeVariant::SetOf { element: l }, TypeVariant::SetOf { element: r }) => check_type(
            &**l,
            &**r,
        ),
        (TypeVariant::String, TypeVariant::EntityOrCommon { name }) => check_internal(
            name,
            "String",
            "String",
        ),
        (TypeVariant::EntityOrCommon { name }, TypeVariant::String) => check_internal(
            name,
            "String",
            "String",
        ),
        (TypeVariant::Long, TypeVariant::EntityOrCommon { name }) => check_internal(
            name,
            "Long",
            "Long",
        ),
        (TypeVariant::EntityOrCommon { name }, TypeVariant::Long) => check_internal(
            name,
            "Long",
            "Long",
        ),
        (TypeVariant::Boolean, TypeVariant::EntityOrCommon { name }) => check_internal(
            name,
            "Bool",
            "Boolean",
        ),
        (TypeVariant::EntityOrCommon { name }, TypeVariant::Boolean) => check_internal(
            name,
            "Bool",
            "Boolean",
        ),
        (TypeVariant::Extension { name: extension }, TypeVariant::EntityOrCommon { name }) => {
            check_internal(
                name,
                extension.as_str(),
                concat3("Extension `", extension.as_str(), "`").as_str(),
            )
        },
        (TypeVariant::EntityOrCommon { name }, TypeVariant::Extension { name: extension }) => {
            check_internal(
                name,
                extension.as_str(),
                concat3("Extension `", extension.as_str(), "`").as_str(),
            )
        },
        (TypeVariant::Entity { name: entity }, TypeVariant::EntityOrCommon { name }) => {
            check_entity_ref(entity, name)
        },
        (TypeVariant::EntityOrCommon { name }, TypeVariant::Entity { name: entity }) => {
            check_entity_ref(entity, name)
        },
        (TypeVariant::String, TypeVariant::String) => Ok(()),
        (TypeVariant::Long, TypeVariant::Long) => Ok(()),
        (TypeVariant::Boolean, TypeVariant::Boolean) => Ok(()),
        (TypeVariant::Entity { name: l }, TypeVariant::Entity { name: r }) => check_equal(
            same_name(l, r),
        ),
        (TypeVariant::EntityOrCommon { name: l }, TypeVariant::EntityOrCommon { name: r }) => {
            check_equal(same_name(l, r))
        },
        (TypeVariant::Extension { name: l }, TypeVariant::Extension { name: r }) => check_equal(
            l.same(r),
        ),
        _ => check_equal(false),
    }
}

/// The verdict for two types that are equivalent only if they are equal.
pub fn check_equal(equal: bool) -> (res: Result<(), String>)
    ensures
        res is Ok <==> equal,
        res matches Err(message) ==> message@ == unequal_diagnosis(),
{
    if equal {
        Ok(())
    } else {
        Err(String::from_str("types are not equivalent"))
    }
}

/// An entity type against an ambiguous reference: the two names must be the
/// same.
pub fn check_entity_ref<N: TypeName>(entity: &N, name: &N) -> (res: Result<(), String>)
    ensures
        res is Ok <==> entity.qualified() == name.qualified(),
        res matches Err(message) ==> message@ == entity_ref_diagnosis(entity, name),
{
    if same_name(name, entity) {
        Ok(())
    } else {
        Err(
            concat5(
                "entity `",
                name_text(entity).as_str(),
                "` is not equivalent to entity-or-common `",
                name_text(name).as_str(),
                "`",
            ),
        )
    }
}

/// Decides [`record_equiv`].
pub fn check_record<N: TypeName>(lhs: &RecordType<N>, rhs: &RecordType<N>) -> (res: Result<
    (),
    String,
>)
    ensures
        res is Ok <==> record_equiv(lhs@, rhs@),
        res matches Err(message) ==> message@ == record_diagnosis(lhs, rhs),
    decreases lhs,
{
    proof {
        assert(lhs@.attributes.dom() =~= lhs.attributes@.dom());
        assert(rhs@.attributes.dom() =~= rhs.attributes@.dom());
    }
    if !lhs.attributes.same_keys(&rhs.attributes) {
        return Err(
            String::from_str("records are not equivalent because they have different keysets"),
        );
    }
    if lhs.additional_attributes != rhs.additional_attributes {
        return Err(
            String::from_str(
                "records are not equivalent because they have different additional_attributes flags",
            ),
        );
    }
    let n = lhs.attributes.len();
    let mut i: usize = 0;
    while i < n
        invariant
            i <= n,
            n == lhs.attributes.keys().len(),
            n == lhs.attributes.entries().len(),
            lhs.attributes@.dom() == rhs.attributes@.dom(),
            lhs@.attributes.dom() == lhs.attributes@.dom(),
            rhs@.attributes.dom() == rhs.attributes@.dom(),
            lhs.additional_attributes == rhs.additional_attributes,
            first_attribute_diagnosis(lhs, rhs, 0) == first_attribute_diagnosis(lhs, rhs, i as int),
            forall|k: int|
                0 <= k < i ==> attribute_equiv(
                    lhs@.attributes[#[trigger] lhs.attributes.keys()[k]],
                    rhs@.attributes[lhs.attributes.keys()[k]],
                ),
        decreases n - i,
    {
        let key = lhs.attributes.key_at(i);
        let l = lhs.attributes.value_at(i);
        proof {
            lhs.attributes.lemma_entry_decreases(i as int);
        }
        match rhs.attributes.get(key) {
            Some(r) => {
                match check_attribute(l, r) {
                    Ok(()) => {},
                    Err(e) => {
                        return Err(e);
                    },
                }
            },
            None => {},
        }
        i += 1;
    }
    proof {
        assert forall|k: Seq<char>| lhs@.attributes.dom().contains(k) implies attribute_equiv(
            lhs@.attributes[k],
            rhs@.attributes[k],
        ) by {
            let p = lhs.attributes.lemma_position(k);
            assert(lhs.attributes.keys()[p] == k);
        }
    }
    Ok(())
}

/// Decides [`attribute_equiv`].
pub fn check_attribute<N: TypeName>(lhs: &TypeOfAttribute<N>, rhs: &TypeOfAttribute<N>) -> (res:
    Result<(), String>)
    ensures
        res is Ok <==> attribute_equiv(lhs@, rhs@),
        res matches Err(message) ==> message@ == attribute_diagnosis(lhs, rhs),
    decreases lhs,
{
    match with_context(
        "mismatch in type of attribute annotations: ",
        Annotations::equiv(&lhs.annotations, &rhs.annotations),
    ) {
        Ok(()) => {},
        Err(e) => {
            return Err(e);
        },
    }
    if lhs.required != rhs.required {
        return Err(String::from_str("attributes differ in required flag"));
    }
    check_type(&lhs.ty, &rhs.ty)
}

impl<N: TypeName> Equiv for Type<N> {
    open spec fn equivalent(lhs: &Self, rhs: &Self) -> bool {
        type_equiv(lhs@, rhs@)
    }

    open spec fn diagnosis(lhs: &Self, rhs: &Self) -> Seq<char> {
        type_diagnosis(lhs, rhs)
    }

    fn equiv(lhs: &Self, rhs: &Self) -> (res: Result<(), String>)
        ensures
            res is Ok <==> type_equiv(lhs@, rhs@),
            res matches Err(message) ==> message@ == Self::diagnosis(lhs, rhs),
    {
        check_type(lhs, rhs)
    }
}

impl<N: TypeName> Equiv for TypeVariant<N> {
    open spec fn equivalent(lhs: &Self, rhs: &Self) -> bool {
        variant_equiv(lhs@, rhs@)
    }

    open spec fn diagnosis(lhs: &Self, rhs: &Self) -> Seq<char> {
        variant_diagnosis(lhs, rhs)
    }

    fn equiv(lhs: &Self, rhs: &Self) -> (res: Result<(), String>)
        ensures
            res is Ok <==> variant_equiv(lhs@, rhs@),
            res matches Err(message) ==> message@ == Self::diagnosis(lhs, rhs),
    {
        check_variant(lhs, rhs)
    }
}

impl<N: TypeName> Equiv for RecordType<N> {
    open spec fn equivalent(lhs: &Self, rhs: &Self) -> bool {
        record_equiv(lhs@, rhs@)
    }

    open spec fn diagnosis(lhs: &Self, rhs: &Self) -> Seq<char> {
        record_diagnosis(lhs, rhs)
    }

    fn equiv(lhs: &Self, rhs: &Self) -> (res: Result<(), String>)
        ensures
            res is Ok <==> record_equiv(lhs@, rhs@),
            res matches Err(message) ==> message@ == Self::diagnosis(lhs, rhs),
    {
        check_record(lhs, rhs)
    }
}

impl<N: TypeName> Equiv for TypeOfAttribute<N> {
    open spec fn equivalent(lhs: &Self, rhs: &Self) -> bool {
        attribute_equiv(lhs@, rhs@)
    }

    open spec fn diagnosis(lhs: &Self, rhs: &Self) -> Seq<char> {
        attribute_diagnosis(lhs, rhs)
    }

    fn equiv(lhs: &Self, rhs: &Self) -> (res: Result<(), String>)
        ensures
            res is Ok <==> attribute_equiv(lhs@, rhs@),
            res matches Err(message) ==> message@ == Self::diagnosis(lhs, rhs),
    {
        check_attribute(lhs, rhs)
    }
}

impl<N: TypeName> Equiv for AttributesOrContext<N> {
    open spec fn equivalent(lhs: &Self, rhs: &Self) -> bool {
        type_equiv(lhs@, rhs@)
    }

    open spec fn diagnosis(lhs: &Self, rhs: &Self) -> Seq<char> {
        type_diagnosis(&lhs.0, &rhs.0)
    }

    fn equiv(lhs: &Self, rhs: &Self) -> (res: Result<(), String>)
        ensures
            res is Ok <==> type_equiv(lhs@, rhs@),
            res matches Err(message) ==> message@ == Self::diagnosis(lhs, rhs),
    {
        check_type(&lhs.0, &rhs.0)
    }
}

} // verus!
