use schema_equiv::assoc::AssocMap;
use schema_equiv::atom::Atom;
use schema_equiv::equiv::{Equiv, ListSet};
use schema_equiv::names::InternalName;
use schema_equiv::validator::{
    check_validated_standard, same_tag_type, tag_type_text, AttributeType, Type,
    ValidatorEntityType, ValidatorEntityTypeKind, ValidatorSchema,
};

fn ty(text: &str) -> Type {
    Type(text.to_string())
}

fn name(path: &[&str], id: &str) -> InternalName {
    InternalName::new(
        id.to_string(),
        path.iter().map(|s| s.to_string()).collect(),
    )
}

fn attribute(text: &str, is_required: bool) -> AttributeType {
    AttributeType {
        attr_type: ty(text),
        is_required,
    }
}

fn standard(
    descendants: &[&str],
    attributes: &[(&str, &str, bool)],
    tag_type: Option<&str>,
) -> ValidatorEntityType {
    let mut map = AssocMap::new();
    for (key, text, required) in attributes {
        map.insert(key.to_string(), attribute(text, *required));
    }
    ValidatorEntityType {
        descendants: ListSet(descendants.iter().map(|d| name(&[], d)).collect()),
        kind: ValidatorEntityTypeKind::Standard,
        attributes: map,
        tag_type: tag_type.map(ty),
    }
}

fn enumerated(choices: &[&str]) -> ValidatorEntityType {
    ValidatorEntityType {
        descendants: ListSet(Vec::new()),
        kind: ValidatorEntityTypeKind::Enum(choices.iter().map(|c| c.to_string()).collect()),
        attributes: AssocMap::new(),
        tag_type: None,
    }
}

fn schema(entities: Vec<(&str, ValidatorEntityType)>, contexts: &[&str]) -> ValidatorSchema {
    let mut entity_types = AssocMap::new();
    for (key, entity) in entities {
        entity_types.insert(name(&["N"], key), entity);
    }
    ValidatorSchema {
        entity_types,
        action_contexts: ListSet(contexts.iter().map(|c| ty(c)).collect()),
    }
}

#[test]
fn validated_types_must_be_the_same() {
    assert_eq!(Equiv::equiv(&ty("Long"), &ty("Long")), Ok(()));
    assert_eq!(
        Equiv::equiv(&ty("Long"), &ty("String")),
        Err("types are not equal: Long != String".to_string())
    );
    assert!(ty("a").same(&ty("a")));
    assert!(!ty("a").same(&ty("b")));
    assert_eq!(ty("a").render(), "a");
}

#[test]
fn validated_attributes() {
    assert_eq!(
        Equiv::equiv(&attribute("Long", true), &attribute("Long", true)),
        Ok(())
    );
    assert_eq!(
        Equiv::equiv(&attribute("Long", true), &attribute("Long", false)),
        Err("attributes differ in required flag".to_string())
    );
    assert_eq!(
        Equiv::equiv(&attribute("Long", true), &attribute("Bool", true)),
        Err("types are not equal: Long != Bool".to_string())
    );
}

#[test]
fn validated_enumerations_compare_choices_in_order() {
    assert_eq!(
        Equiv::equiv(&enumerated(&["a", "b"]), &enumerated(&["a", "b"])),
        Ok(())
    );
    assert_eq!(
        Equiv::equiv(&enumerated(&["a", "b"]), &enumerated(&["b", "a"])),
        Err("enumerated entity types have different eid choices".to_string())
    );
    assert_eq!(
        Equiv::equiv(&enumerated(&["a", "b"]), &enumerated(&["a", "b", "c"])),
        Err("enumerated entity types have different eid choices".to_string())
    );
}

#[test]
fn validated_kinds_never_mix() {
    assert_eq!(
        Equiv::equiv(&enumerated(&["a"]), &standard(&[], &[], None)),
        Err("different entity type kind".to_string())
    );
    assert_eq!(
        Equiv::equiv(&standard(&[], &[], None), &enumerated(&["a"])),
        Err("different entity type kind".to_string())
    );
}

#[test]
fn validated_standard_types() {
    let base = || standard(&["A", "B"], &[("x", "Long", true), ("y", "String", false)], Some("String"));
    assert_eq!(
        Equiv::equiv(
            &base(),
            &standard(&["B", "A"], &[("y", "String", false), ("x", "Long", true)], Some("String"))
        ),
        Ok(())
    );
    assert_eq!(
        Equiv::equiv(
            &base(),
            &standard(&["A"], &[("x", "Long", true), ("y", "String", false)], Some("String"))
        ),
        Err("missing set elements: B".to_string())
    );
    assert_eq!(
        Equiv::equiv(&base(), &standard(&["A", "B"], &[("x", "Long", true)], Some("String"))),
        Err("Missing keys: y".to_string())
    );
    assert_eq!(
        Equiv::equiv(
            &base(),
            &standard(&["A", "B"], &[("x", "Long", false), ("y", "Bool", false)], Some("String"))
        ),
        Err("Found the following mismatches: for key `x`: attributes differ in required flag\nfor key `y`: types are not equal: String != Bool".to_string())
    );
    assert_eq!(
        Equiv::equiv(
            &base(),
            &standard(&["A", "B"], &[("x", "Long", true), ("y", "String", false)], None)
        ),
        Err("encountered different tags types: String and None".to_string())
    );
    assert_eq!(
        check_validated_standard(
            &base(),
            &standard(&["A", "B"], &[("x", "Long", true), ("y", "String", false)], Some("Long"))
        ),
        Err("encountered different tags types: String and Long".to_string())
    );
    assert!(same_tag_type(&None, &None));
    assert!(same_tag_type(&Some(ty("a")), &Some(ty("a"))));
    assert!(!same_tag_type(&Some(ty("a")), &Some(ty("b"))));
    assert!(!same_tag_type(&Some(ty("a")), &None));
    assert_eq!(tag_type_text(&None), "None");
    assert_eq!(tag_type_text(&Some(ty("a"))), "a");
}

#[test]
fn validated_schemas() {
    let base = || {
        schema(
            vec![
                ("User", standard(&["Group"], &[("x", "Long", true)], None)),
                ("Color", enumerated(&["red"])),
            ],
            &["{}", "{ip: ipaddr}"],
        )
    };
    assert_eq!(Equiv::equiv(&base(), &base()), Ok(()));
    assert_eq!(
        Equiv::equiv(
            &base(),
            &schema(
                vec![
                    ("Color", enumerated(&["red"])),
                    ("User", standard(&["Group"], &[("x", "Long", true)], None)),
                ],
                &["{ip: ipaddr}", "{}", "{}"],
            )
        ),
        Ok(())
    );
    assert_eq!(
        Equiv::equiv(
            &base(),
            &schema(
                vec![
                    ("User", standard(&["Group"], &[("x", "String", true)], None)),
                    ("Color", enumerated(&["red"])),
                ],
                &["{}", "{ip: ipaddr}"],
            )
        ),
        Err("entity attributes are not equivalent: Found the following mismatches: for key `N::User`: Found the following mismatches: for key `x`: types are not equal: Long != String".to_string())
    );
    assert_eq!(
        Equiv::equiv(
            &base(),
            &schema(vec![("Color", enumerated(&["red"]))], &["{}", "{ip: ipaddr}"])
        ),
        Err("entity attributes are not equivalent: Missing keys: N::User".to_string())
    );
    assert_eq!(
        Equiv::equiv(
            &base(),
            &schema(
                vec![
                    ("User", standard(&["Group"], &[("x", "Long", true)], None)),
                    ("Color", enumerated(&["red"])),
                ],
                &["{}"],
            )
        ),
        Err("contexts are not equivalent: missing set elements: {ip: ipaddr}".to_string())
    );
}
