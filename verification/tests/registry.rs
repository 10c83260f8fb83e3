use ts_endpoint_generator::registry::{DuplicateError, MethodRecord, Registry, RegistryEntry};
use ts_endpoint_generator::signature::parse_signature;

fn names(registry: &Registry) -> Vec<(String, Vec<String>)> {
    registry
        .groups()
        .iter()
        .map(|g| (g.name.clone(), g.methods.iter().map(|m| m.name.clone()).collect()))
        .collect()
}

#[test]
fn new_registry_is_empty() {
    let registry = Registry::new();
    assert!(registry.groups().is_empty());
    assert_eq!(registry.get("Users", "list"), None);
}

#[test]
fn inserted_method_is_held_with_its_entry() {
    let mut registry = Registry::new();
    let signature = parse_signature("id: string, deep: boolean");
    assert_eq!(registry.insert("Users", "get", &signature, "UserService"), Ok(()));
    let expected = MethodRecord {
        name: "get".to_string(),
        entry: RegistryEntry {
            definitions: "id: string, deep: boolean".to_string(),
            names: "id, deep".to_string(),
            route: "Users-get".to_string(),
        },
        sources: vec!["UserService".to_string()],
    };
    assert_eq!(registry.get("Users", "get"), Some(&expected));
    assert_eq!(registry.get("Users", "list"), None);
    assert_eq!(registry.get("Other", "get"), None);
    assert_eq!(registry.get("get", "Users"), None);
}

#[test]
fn groups_and_methods_keep_the_order_of_discovery() {
    let mut registry = Registry::new();
    let empty = parse_signature("");
    assert!(registry.insert("B", "z", &empty, "C1").is_ok());
    assert!(registry.insert("A", "y", &empty, "C2").is_ok());
    assert!(registry.insert("B", "a", &empty, "C3").is_ok());
    assert!(registry.insert("A", "x", &empty, "C2").is_ok());
    assert!(registry.insert("C", "z", &empty, "C1").is_ok());
    assert_eq!(
        names(&registry),
        vec![
            ("B".to_string(), vec!["z".to_string(), "a".to_string()]),
            ("A".to_string(), vec!["y".to_string(), "x".to_string()]),
            ("C".to_string(), vec!["z".to_string()]),
        ]
    );
}

#[test]
fn same_method_name_in_two_groups_is_no_duplicate() {
    let mut registry = Registry::new();
    let signature = parse_signature("");
    assert!(registry.insert("Users", "get", &signature, "A").is_ok());
    assert!(registry.insert("Orders", "get", &signature, "B").is_ok());
    assert_eq!(registry.get("Users", "get").unwrap().entry.route, "Users-get");
    assert_eq!(registry.get("Orders", "get").unwrap().entry.route, "Orders-get");
    assert_eq!(registry.get("Orders", "get").unwrap().sources, vec!["B".to_string()]);
}

#[test]
fn second_definition_is_refused_and_changes_nothing() {
    let mut registry = Registry::new();
    assert!(registry.insert("Users", "list", &parse_signature(""), "First").is_ok());
    assert!(registry.insert("Users", "get", &parse_signature("id: string"), "First").is_ok());
    let before = registry.groups().clone();
    let refused = registry.insert("Users", "get", &parse_signature("key: number"), "Second");
    assert_eq!(
        refused,
        Err(DuplicateError {
            group: "Users".to_string(),
            method: "get".to_string(),
            sources: vec!["First".to_string(), "Second".to_string()],
        })
    );
    assert_eq!(registry.groups(), &before);
    assert_eq!(registry.get("Users", "get").unwrap().entry.definitions, "id: string");
    assert_eq!(registry.get("Users", "get").unwrap().sources, vec!["First".to_string()]);
}

#[test]
fn same_class_declaring_twice_is_refused_too() {
    let mut registry = Registry::new();
    assert!(registry.insert("G", "m", &parse_signature(""), "Same").is_ok());
    let refused = registry.insert("G", "m", &parse_signature(""), "Same");
    assert_eq!(refused.unwrap_err().sources, vec!["Same".to_string(), "Same".to_string()]);
}

#[test]
fn every_pair_is_held_at_most_once() {
    let mut registry = Registry::new();
    let signature = parse_signature("a: number");
    let attempts = [("A", "x"), ("B", "x"), ("A", "y"), ("A", "x"), ("B", "x"), ("B", "y"), ("A", "y")];
    let mut refused = 0;
    for (group, method) in attempts {
        if registry.insert(group, method, &signature, "C").is_err() {
            refused += 1;
        }
    }
    assert_eq!(refused, 3);
    let mut pairs: Vec<(String, String)> = Vec::new();
    for g in registry.groups() {
        for m in &g.methods {
            pairs.push((g.name.clone(), m.name.clone()));
        }
    }
    assert_eq!(pairs.len(), 4);
    for i in 0..pairs.len() {
        for j in (i + 1)..pairs.len() {
            assert_ne!(pairs[i], pairs[j]);
        }
    }
}
