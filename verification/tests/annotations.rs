use schema_equiv::assoc::AssocMap;
use schema_equiv::equiv::{annotation_text, Equiv};
use schema_equiv::schema::{Annotation, Annotations};

fn ann(pairs: &[(&str, Option<&str>)]) -> Annotations {
    let mut map = AssocMap::new();
    for (name, value) in pairs {
        map.insert(
            name.to_string(),
            value.map(|v| Annotation { val: v.to_string() }),
        );
    }
    Annotations(map)
}

#[test]
fn annotations() {
    // positive cases
    let pairs: [(Annotations, Annotations); 5] = [
        // value being null is equivalent to an empty string
        (ann(&[("a", None)]), ann(&[("a", Some(""))])),
        (ann(&[("a", Some(""))]), ann(&[("a", None)])),
        // both values being null is also equivalent
        (ann(&[("a", None)]), ann(&[("a", None)])),
        // otherwise compare non-null values
        (ann(&[("a", Some("🥨"))]), ann(&[("a", Some("🥨"))])),
        (
            ann(&[("a", Some("🥨")), ("b", Some("🥯🍩"))]),
            ann(&[("b", Some("🥯🍩")), ("a", Some("🥨"))]),
        ),
    ];
    pairs
        .iter()
        .for_each(|(a, b)| assert!(Equiv::equiv(a, b).is_ok()));

    // negative cases
    let pairs: [(Annotations, Annotations); 5] = [
        (ann(&[("a", None)]), ann(&[("a", Some("🍪"))])),
        (ann(&[("a", Some(""))]), ann(&[("b", None)])),
        (ann(&[("a", None)]), ann(&[("b", None)])),
        (ann(&[("a", Some("🥨"))]), ann(&[("a", Some("🍪"))])),
        (
            ann(&[("a", Some("🥨")), ("b", Some("🥯🍪"))]),
            ann(&[("b", Some("🥯🍩")), ("a", Some("🥨"))]),
        ),
    ];
    pairs
        .iter()
        .for_each(|(a, b)| assert!(Equiv::equiv(a, b).is_err()));
}

#[test]
fn annotation_null_and_empty_are_one() {
    assert!(Equiv::equiv(&ann(&[("a", None)]), &ann(&[("a", Some(""))])).is_ok());
    assert!(Equiv::equiv(&ann(&[("a", None)]), &ann(&[("a", Some("x"))])).is_err());
    assert!(Equiv::equiv(&ann(&[("a", None)]), &ann(&[("b", None)])).is_err());
    assert!(Equiv::equiv(
        &ann(&[("a", Some("x")), ("b", Some("y"))]),
        &ann(&[("b", Some("y")), ("a", Some("x"))])
    )
    .is_ok());
}

#[test]
fn annotation_values_leaf_rule() {
    let none: Option<Annotation> = None;
    let empty = Some(Annotation { val: String::new() });
    let x = Some(Annotation { val: "x".to_string() });
    let y = Some(Annotation { val: "y".to_string() });
    assert_eq!(Equiv::equiv(&none, &none), Ok(()));
    assert_eq!(Equiv::equiv(&none, &empty), Ok(()));
    assert_eq!(Equiv::equiv(&empty, &none), Ok(()));
    assert_eq!(Equiv::equiv(&x, &x), Ok(()));
    assert_eq!(
        Equiv::equiv(&x, &y),
        Err("\"x\" and \"y\" are not equivalent".to_string())
    );
    assert_eq!(
        Equiv::equiv(&none, &x),
        Err("null and \"x\" are not equivalent".to_string())
    );
    assert_eq!(
        Equiv::equiv(&x, &none),
        Err("\"x\" and null are not equivalent".to_string())
    );
    assert_eq!(
        Equiv::equiv(&empty, &x),
        Err("\"\" and \"x\" are not equivalent".to_string())
    );
}

#[test]
fn annotation_values_in_diagnostics() {
    assert_eq!(annotation_text(&None), "null");
    assert_eq!(
        annotation_text(&Some(Annotation { val: "x y".to_string() })),
        "\"x y\""
    );
    assert_eq!(
        annotation_text(&Some(Annotation { val: String::new() })),
        "\"\""
    );
}

#[test]
fn annotation_keys_on_one_side_are_listed() {
    let lhs = ann(&[("a", Some("1")), ("b", Some("2"))]);
    let rhs = ann(&[("a", Some("1")), ("c", Some("2"))]);
    let message = Equiv::equiv(&lhs, &rhs).unwrap_err();
    assert_eq!(message, "Missing keys: b, c");
    let message = Equiv::equiv(&rhs, &lhs).unwrap_err();
    assert_eq!(message, "Missing keys: c, b");
}

#[test]
fn annotation_value_mismatches_are_all_listed() {
    let lhs = ann(&[("a", Some("1")), ("b", Some("2")), ("c", None)]);
    let rhs = ann(&[("c", Some("3")), ("b", Some("2")), ("a", None)]);
    let message = Equiv::equiv(&lhs, &rhs).unwrap_err();
    assert_eq!(
        message,
        "Found the following mismatches: for key `a`: \"1\" and null are not equivalent\nfor key `c`: null and \"3\" are not equivalent"
    );
}

#[test]
fn equiv_through_references() {
    let lhs = ann(&[("a", None)]);
    let rhs = ann(&[("a", Some(""))]);
    let other = ann(&[("a", Some("x"))]);
    assert!(Equiv::equiv(&&lhs, &&rhs).is_ok());
    assert!(Equiv::equiv(&&lhs, &&other).is_err());
}
