use schema_equiv::assoc::AssocMap;
use schema_equiv::atom::Atom;
use schema_equiv::equiv::{
    append_all, lacking, lacking_keys, name_set_equiv, occurs, qualify_all, same_name, set_equiv,
    with_context, Equiv, ListSet,
};
use schema_equiv::hints::arbitrary_vec_size_hint;
use schema_equiv::names::{is_internal_type, InternalName, RawName, TypeName};
use schema_equiv::schema::Annotation;
use schema_equiv::text::{concat2, concat3, concat5, copy_strings, str_eq, strings_eq};

fn strings(items: &[&str]) -> Vec<String> {
    items.iter().map(|s| s.to_string()).collect()
}

fn raw(path: &[&str], id: &str) -> RawName {
    RawName(InternalName::new(id.to_string(), strings(path)))
}

fn values(pairs: &[(&str, Option<&str>)]) -> AssocMap<String, Option<Annotation>> {
    let mut map = AssocMap::new();
    for (name, value) in pairs {
        map.insert(
            name.to_string(),
            value.map(|v| Annotation { val: v.to_string() }),
        );
    }
    map
}

#[test]
fn map_starts_empty() {
    let map: AssocMap<String, String> = AssocMap::new();
    assert_eq!(map.len(), 0);
    assert!(map.is_empty());
    assert!(map.get(&"a".to_string()).is_none());
    assert!(!map.contains_key(&"a".to_string()));
}

#[test]
fn map_insert_binds_and_replaces() {
    let mut map: AssocMap<String, String> = AssocMap::new();
    map.insert("a".to_string(), "1".to_string());
    map.insert("b".to_string(), "2".to_string());
    assert_eq!(map.len(), 2);
    assert!(!map.is_empty());
    assert_eq!(map.get(&"a".to_string()), Some(&"1".to_string()));
    assert_eq!(map.get(&"b".to_string()), Some(&"2".to_string()));
    map.insert("a".to_string(), "3".to_string());
    assert_eq!(map.len(), 2);
    assert_eq!(map.get(&"a".to_string()), Some(&"3".to_string()));
    assert_eq!(map.key_at(0), "a");
    assert_eq!(map.value_at(0), "3");
    assert_eq!(map.key_at(1), "b");
    assert_eq!(map.position(&"b".to_string()), Some(1));
    assert_eq!(map.position(&"c".to_string()), None);
    assert!(map.contains_key(&"b".to_string()));
}

#[test]
fn map_same_keys_ignores_order_and_values() {
    let lhs = values(&[("a", None), ("b", Some("x"))]);
    let rhs = values(&[("b", None), ("a", None)]);
    let other = values(&[("a", None), ("c", None)]);
    let shorter = values(&[("a", None)]);
    assert!(lhs.same_keys(&rhs));
    assert!(!lhs.same_keys(&other));
    assert!(!lhs.same_keys(&shorter));
    assert!(!shorter.same_keys(&lhs));
}

#[test]
fn map_equivalence_is_by_key_not_by_position() {
    let lhs = values(&[("a", None), ("b", Some("x"))]);
    let rhs = values(&[("b", Some("x")), ("a", Some(""))]);
    assert_eq!(Equiv::equiv(&lhs, &rhs), Ok(()));
    assert_eq!(Equiv::equiv(&rhs, &lhs), Ok(()));
}

#[test]
fn map_mismatch_reports_keys_of_both_sides() {
    let lhs = values(&[("a", Some("1")), ("b", Some("2"))]);
    let rhs = values(&[("a", Some("1")), ("c", Some("2"))]);
    let message = Equiv::equiv(&lhs, &rhs).unwrap_err();
    assert!(message.contains('b'));
    assert!(message.contains('c'));
    assert_eq!(message, "Missing keys: b, c");
}

#[test]
fn map_of_different_size_reports_missing_keys() {
    let lhs = values(&[("a", None), ("b", None), ("d", None)]);
    let rhs = values(&[("a", None)]);
    assert_eq!(
        Equiv::equiv(&lhs, &rhs),
        Err("Missing keys: b, d".to_string())
    );
    assert_eq!(
        Equiv::equiv(&rhs, &lhs),
        Err("Missing keys: b, d".to_string())
    );
}

#[test]
fn set_equivalence_ignores_order_and_repetition() {
    assert_eq!(
        set_equiv(&strings(&["A", "B"]), &strings(&["B", "A", "A"])),
        Ok(())
    );
    assert_eq!(set_equiv(&strings(&[]), &strings(&[])), Ok(()));
}

#[test]
fn set_mismatch_lists_the_symmetric_difference() {
    assert_eq!(
        set_equiv(&strings(&["A", "B"]), &strings(&["A", "B", "C"])),
        Err("missing set elements: C".to_string())
    );
    assert_eq!(
        set_equiv(&strings(&["A", "D", "D"]), &strings(&["B", "A", "C"])),
        Err("missing set elements: D, B, C".to_string())
    );
}

#[test]
fn list_sets_are_equivalent_as_sets() {
    let lhs = ListSet(strings(&["A", "B", "A"]));
    let rhs = ListSet(strings(&["B", "A"]));
    let other = ListSet(strings(&["B", "C"]));
    assert_eq!(Equiv::equiv(&lhs, &rhs), Ok(()));
    assert_eq!(
        Equiv::equiv(&lhs, &other),
        Err("missing set elements: A, C".to_string())
    );
}

#[test]
fn helpers_of_the_set_check() {
    let items = strings(&["a", "b", "a", "c"]);
    assert!(occurs(&items, 4, &"c".to_string()));
    assert!(!occurs(&items, 3, &"c".to_string()));
    assert!(!occurs(&items, 0, &"a".to_string()));
    assert_eq!(lacking(&items, &strings(&["b"])), strings(&["a", "c"]));
    assert_eq!(lacking(&items, &items), strings(&[]));
    let mut out = strings(&["x"]);
    append_all(&mut out, strings(&["y", "z"]));
    assert_eq!(out, strings(&["x", "y", "z"]));
    assert_eq!(
        lacking_keys(&values(&[("a", None), ("b", None)]), &values(&[("b", None)])),
        strings(&["a"])
    );
    let qualified = qualify_all(&vec![raw(&["N"], "a"), raw(&[], "b")]);
    assert_eq!(qualified.len(), 2);
    assert_eq!(qualified[0].render(), "N::a");
    assert_eq!(qualified[1].render(), "b");
}

#[test]
fn name_sets_compare_qualified_forms() {
    let lhs = vec![raw(&[], "User"), raw(&["N"], "Group")];
    let rhs = vec![raw(&["N"], "Group"), raw(&[], "User")];
    let other = vec![raw(&[], "Group"), raw(&[], "User")];
    assert_eq!(name_set_equiv(&lhs, &rhs), Ok(()));
    assert_eq!(
        name_set_equiv(&lhs, &other),
        Err("missing set elements: N::Group, Group".to_string())
    );
}

#[test]
fn names_qualify_to_themselves() {
    let name = raw(&["A", "B"], "c");
    let qualified = name.qualify();
    assert_eq!(qualified.id, "c");
    assert_eq!(qualified.path, strings(&["A", "B"]));
    assert_eq!(qualified.render(), "A::B::c");
    let internal = InternalName::new("c".to_string(), strings(&["A", "B"]));
    assert!(internal.qualify().same(&qualified));
    assert_eq!(InternalName::unqualified("x".to_string()).render(), "x");
    assert!(internal.duplicate().same(&internal));
}

#[test]
fn names_are_the_same_by_basename_and_namespace() {
    assert!(same_name(&raw(&["A"], "b"), &raw(&["A"], "b")));
    assert!(!same_name(&raw(&["A"], "b"), &raw(&[], "b")));
    assert!(!same_name(&raw(&["A"], "b"), &raw(&["A"], "c")));
    assert!(!same_name(&raw(&["A", "B"], "c"), &raw(&["B", "A"], "c")));
}

#[test]
fn internal_types_live_in_the_reserved_namespace() {
    assert!(is_internal_type(&raw(&["__cedar"], "String"), "String"));
    assert!(!is_internal_type(&raw(&["__cedar"], "Long"), "String"));
    assert!(!is_internal_type(&raw(&["other_ns"], "String"), "String"));
    assert!(!is_internal_type(&raw(&[], "String"), "String"));
    assert!(!is_internal_type(
        &raw(&["__cedar", "__cedar"], "String"),
        "String"
    ));
    assert!(!is_internal_type(
        &raw(&["a", "__cedar"], "String"),
        "String"
    ));
}

#[test]
fn atoms_of_namespace_names() {
    let root: Option<String> = None;
    let named = Some("A::B".to_string());
    assert!(root.same(&None));
    assert!(!root.same(&named));
    assert!(named.same(&Some("A::B".to_string())));
    assert!(!named.same(&Some("A".to_string())));
    assert_eq!(root.render(), "");
    assert_eq!(named.render(), "A::B");
    assert!("a".to_string().same(&"a".to_string()));
    assert_eq!("a".to_string().render(), "a");
}

#[test]
fn text_helpers_concatenate() {
    assert_eq!(concat2("ab", "cd"), "abcd");
    assert_eq!(concat3("a", "", "c"), "ac");
    assert_eq!(concat5("1", "2", "3", "4", "5"), "12345");
    assert!(str_eq("🥨", "🥨"));
    assert!(!str_eq("a", "b"));
}

#[test]
fn text_helpers_on_lists() {
    let items = strings(&["a", "", "🥨"]);
    assert_eq!(copy_strings(&items), items);
    assert_eq!(copy_strings(&strings(&[])), strings(&[]));
    assert!(strings_eq(&items, &strings(&["a", "", "🥨"])));
    assert!(!strings_eq(&items, &strings(&["a", "", "b"])));
    assert!(!strings_eq(&items, &strings(&["a", ""])));
    assert!(!strings_eq(&strings(&["a", "b"]), &strings(&["b", "a"])));
}

#[test]
fn context_goes_in_front_of_a_diagnostic() {
    assert_eq!(with_context("in x: ", Ok(())), Ok(()));
    assert_eq!(
        with_context("in x: ", Err("bad".to_string())),
        Err("in x: bad".to_string())
    );
}

#[test]
fn size_hint_of_a_drawn_list_is_open() {
    assert_eq!(arbitrary_vec_size_hint(0), (0, None));
    assert_eq!(arbitrary_vec_size_hint(3), (0, None));
    assert_eq!(arbitrary_vec_size_hint(usize::MAX), (0, None));
}
