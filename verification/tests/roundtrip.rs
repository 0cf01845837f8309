use cedar_policy_core::extensions::Extensions;
use cedar_policy_core::validator::json_schema;
use cedar_policy_core::validator::RawName as CedarRawName;
use schema_equiv::assoc::AssocMap;
use schema_equiv::fragment_checks::equivalence_check;
use schema_equiv::names::{InternalName, RawName};
use schema_equiv::schema;
use serde_json::Value;

fn name(text: &str) -> RawName {
    let mut parts: Vec<String> = text.split("::").map(|p| p.to_string()).collect();
    let id = parts.pop().unwrap();
    RawName(InternalName::new(id, parts))
}

fn names(value: Option<&Value>) -> Vec<RawName> {
    match value {
        Some(list) => list
            .as_array()
            .unwrap()
            .iter()
            .map(|n| name(n.as_str().unwrap()))
            .collect(),
        None => Vec::new(),
    }
}

fn annotations(value: Option<&Value>) -> schema::Annotations {
    let mut out = AssocMap::new();
    if let Some(map) = value {
        for (key, value) in map.as_object().unwrap() {
            let value = value.as_str().map(|v| schema::Annotation { val: v.to_string() });
            out.insert(key.to_string(), value);
        }
    }
    schema::Annotations(out)
}

fn empty_record() -> schema::Type<RawName> {
    schema::Type::Type {
        ty: schema::TypeVariant::Record(schema::RecordType {
            attributes: AssocMap::new(),
            additional_attributes: false,
        }),
    }
}

fn ty(value: &Value) -> schema::Type<RawName> {
    let kind = value["type"].as_str().unwrap();
    let named = || name(value["name"].as_str().unwrap());
    let variant = match kind {
        "String" => schema::TypeVariant::String,
        "Long" => schema::TypeVariant::Long,
        "Boolean" => schema::TypeVariant::Boolean,
        "Set" => schema::TypeVariant::SetOf {
            element: Box::new(ty(&value["element"])),
        },
        "Record" => {
            let mut attributes = AssocMap::new();
            for (key, attribute) in value["attributes"].as_object().unwrap() {
                attributes.insert(
                    key.to_string(),
                    schema::TypeOfAttribute {
                        ty: ty(attribute),
                        annotations: annotations(attribute.get("annotations")),
                        required: attribute
                            .get("required")
                            .map(|r| r.as_bool().unwrap())
                            .unwrap_or(true),
                    },
                );
            }
            schema::TypeVariant::Record(schema::RecordType {
                attributes,
                additional_attributes: value
                    .get("additionalAttributes")
                    .map(|a| a.as_bool().unwrap())
                    .unwrap_or(false),
            })
        }
        "Entity" => schema::TypeVariant::Entity { name: named() },
        "EntityOrCommon" => schema::TypeVariant::EntityOrCommon { name: named() },
        "Extension" => schema::TypeVariant::Extension {
            name: value["name"].as_str().unwrap().to_string(),
        },
        common => return schema::Type::CommonTypeRef { name: name(common) },
    };
    schema::Type::Type { ty: variant }
}

fn entity_type(value: &Value) -> schema::EntityType<RawName> {
    let kind = match value.get("enum") {
        Some(choices) => schema::EntityTypeKind::Enum {
            choices: choices
                .as_array()
                .unwrap()
                .iter()
                .map(|c| c.as_str().unwrap().to_string())
                .collect(),
        },
        None => schema::EntityTypeKind::Standard(schema::StandardEntityType {
            member_of_types: names(value.get("memberOfTypes")),
            shape: schema::AttributesOrContext(
                value.get("shape").map(ty).unwrap_or_else(empty_record),
            ),
            tags: value.get("tags").map(ty),
        }),
    };
    schema::EntityType {
        kind,
        annotations: annotations(value.get("annotations")),
    }
}

fn action_type(value: &Value) -> schema::ActionType<RawName> {
    schema::ActionType {
        attributes: value.get("attributes").map(|attributes| {
            let mut out = AssocMap::new();
            for (key, value) in attributes.as_object().unwrap() {
                out.insert(key.to_string(), value.to_string());
            }
            out
        }),
        applies_to: value.get("appliesTo").map(|spec| schema::ApplySpec {
            resource_types: names(spec.get("resourceTypes")),
            principal_types: names(spec.get("principalTypes")),
            context: schema::AttributesOrContext(
                spec.get("context").map(ty).unwrap_or_else(empty_record),
            ),
        }),
        member_of: value.get("memberOf").map(|parents| {
            parents
                .as_array()
                .unwrap()
                .iter()
                .map(|uid| schema::ActionEntityUID {
                    id: uid["id"].as_str().unwrap().to_string(),
                    ty: uid.get("type").map(|t| name(t.as_str().unwrap())),
                })
                .collect()
        }),
        annotations: annotations(value.get("annotations")),
    }
}

/// The library's form of a fragment, read from the JSON that Cedar writes
/// for it.
fn fragment(frag: &json_schema::Fragment<CedarRawName>) -> schema::Fragment<RawName> {
    let json = serde_json::to_value(frag.clone()).unwrap();
    let mut namespaces = AssocMap::new();
    for (ns_name, nsdef) in json.as_object().unwrap() {
        let mut common_types = AssocMap::new();
        if let Some(commons) = nsdef.get("commonTypes") {
            for (key, common) in commons.as_object().unwrap() {
                common_types.insert(
                    key.to_string(),
                    schema::CommonType {
                        ty: ty(common),
                        annotations: annotations(common.get("annotations")),
                    },
                );
            }
        }
        let mut entity_types = AssocMap::new();
        for (key, entity) in nsdef["entityTypes"].as_object().unwrap() {
            entity_types.insert(key.to_string(), entity_type(entity));
        }
        let mut actions = AssocMap::new();
        for (key, action) in nsdef["actions"].as_object().unwrap() {
            actions.insert(key.to_string(), action_type(action));
        }
        let ns_name = if ns_name.is_empty() {
            None
        } else {
            Some(ns_name.to_string())
        };
        namespaces.insert(
            ns_name,
            schema::NamespaceDefinition {
                common_types,
                entity_types,
                actions,
                annotations: annotations(nsdef.get("annotations")),
            },
        );
    }
    schema::Fragment(namespaces)
}

fn parse(json: &str) -> json_schema::Fragment<CedarRawName> {
    json_schema::Fragment::from_json_str(json).unwrap()
}

fn through_json(
    source: &json_schema::Fragment<CedarRawName>,
) -> json_schema::Fragment<CedarRawName> {
    let json = serde_json::to_value(source.clone()).unwrap();
    json_schema::Fragment::from_json_value(json).unwrap()
}

fn through_cedar_syntax(
    source: &json_schema::Fragment<CedarRawName>,
) -> json_schema::Fragment<CedarRawName> {
    let src = source.to_cedarschema().unwrap();
    let (reparsed, _) =
        json_schema::Fragment::from_cedarschema_str(&src, Extensions::all_available()).unwrap();
    reparsed
}

fn assert_roundtrips(json: &str) {
    let source = parse(json);
    let json_ast = through_json(&source);
    assert_eq!(
        equivalence_check(&fragment(&source), &fragment(&json_ast)),
        Ok(())
    );
    let final_ast = through_cedar_syntax(&json_ast);
    assert_eq!(
        equivalence_check(&fragment(&source), &fragment(&final_ast)),
        Ok(())
    );
    assert_eq!(
        equivalence_check(&fragment(&final_ast), &fragment(&source)),
        Ok(())
    );
}

const DOCUMENTS: &str = r#"{
    "Docs": {
        "commonTypes": {
            "Meta": {
                "type": "Record",
                "attributes": {
                    "size": { "type": "Long" },
                    "tags": { "type": "Set", "element": { "type": "String" } },
                    "public": { "type": "Boolean", "required": false }
                }
            }
        },
        "entityTypes": {
            "User": {
                "memberOfTypes": ["Group"],
                "shape": {
                    "type": "Record",
                    "attributes": {
                        "name": { "type": "String" },
                        "addr": { "type": "Extension", "name": "ipaddr" },
                        "boss": { "type": "Entity", "name": "User", "required": false }
                    }
                },
                "tags": { "type": "String" }
            },
            "Group": {},
            "Doc": {
                "shape": {
                    "type": "Record",
                    "attributes": {
                        "meta": { "type": "Meta" },
                        "owner": { "type": "EntityOrCommon", "name": "User" }
                    }
                }
            },
            "Color": { "enum": ["red", "green", "blue"] }
        },
        "actions": {
            "view": {
                "appliesTo": {
                    "principalTypes": ["User"],
                    "resourceTypes": ["Doc"],
                    "context": {
                        "type": "Record",
                        "attributes": { "ip": { "type": "Extension", "name": "ipaddr" } }
                    }
                }
            },
            "edit": {
                "appliesTo": { "principalTypes": ["User", "Group"], "resourceTypes": ["Doc"] }
            }
        }
    }
}"#;

#[test]
fn roundtrip_of_a_schema_with_every_kind_of_type() {
    assert_roundtrips(DOCUMENTS);
}

#[test]
fn json_roundtrip_of_action_groups() {
    let source = parse(
        r#"{ "": {
            "entityTypes": { "User": {}, "Doc": {} },
            "actions": {
                "read": {},
                "view": {
                    "memberOf": [{ "id": "read" }, { "id": "all", "type": "Top::Action" }],
                    "appliesTo": { "principalTypes": ["User"], "resourceTypes": ["Doc"] }
                }
            }
        } }"#,
    );
    let json_ast = through_json(&source);
    assert_eq!(
        equivalence_check(&fragment(&source), &fragment(&json_ast)),
        Ok(())
    );
}

#[test]
fn roundtrip_of_an_empty_schema() {
    assert_roundtrips("{}");
}

#[test]
fn roundtrip_of_an_empty_root_namespace() {
    assert_roundtrips(r#"{ "": { "entityTypes": {}, "actions": {} } }"#);
    let explicit = parse(r#"{ "": { "entityTypes": {}, "actions": {} } }"#);
    let nothing = parse("{}");
    assert_eq!(
        equivalence_check(&fragment(&explicit), &fragment(&nothing)),
        Ok(())
    );
    assert_eq!(
        equivalence_check(&fragment(&nothing), &fragment(&explicit)),
        Ok(())
    );
}

#[test]
fn roundtrip_of_actions_that_apply_to_nothing() {
    assert_roundtrips(
        r#"{ "": {
            "entityTypes": { "User": {}, "Doc": {} },
            "actions": {
                "a": { "appliesTo": { "principalTypes": [], "resourceTypes": ["Doc"] } },
                "b": { "appliesTo": { "principalTypes": ["User"], "resourceTypes": [] } },
                "c": { "appliesTo": { "principalTypes": [], "resourceTypes": [] } },
                "d": {}
            }
        } }"#,
    );
}

#[test]
fn roundtrip_of_annotations() {
    assert_roundtrips(
        r#"{ "N": {
            "annotations": { "doc": "namespace", "empty": "" },
            "entityTypes": {
                "User": { "annotations": { "doc": "a user", "flag": "" } }
            },
            "actions": {
                "view": { "annotations": { "doc": "look" } }
            }
        } }"#,
    );
}

#[test]
fn roundtrip_of_the_root_and_a_named_namespace() {
    assert_roundtrips(
        r#"{
            "": {
                "entityTypes": { "Root": {} },
                "actions": {}
            },
            "A::B": {
                "entityTypes": {
                    "Leaf": { "memberOfTypes": ["Leaf"] }
                },
                "actions": {
                    "act": {
                        "appliesTo": { "principalTypes": ["Leaf"], "resourceTypes": ["Leaf"] }
                    }
                }
            }
        }"#,
    );
}

#[test]
fn different_schemas_are_told_apart() {
    let source = parse(DOCUMENTS);
    let other = parse(
        r#"{ "Docs": {
            "entityTypes": { "User": {}, "Group": {}, "Doc": {}, "Color": { "enum": ["red"] } },
            "actions": {}
        } }"#,
    );
    assert!(equivalence_check(&fragment(&source), &fragment(&other)).is_err());
    assert!(equivalence_check(&fragment(&other), &fragment(&source)).is_err());
    let renamed = parse(
        r#"{ "Other": {
            "entityTypes": { "User": {}, "Group": {}, "Doc": {}, "Color": { "enum": ["red"] } },
            "actions": {}
        } }"#,
    );
    assert_eq!(
        equivalence_check(&fragment(&other), &fragment(&renamed)),
        Err("namespace `Docs` does not exist in RHS schema".to_string())
    );
}
