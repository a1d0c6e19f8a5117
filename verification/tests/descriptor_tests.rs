use asana_sdk::models::{Descriptor, Model, Relation};

fn desc(endpoint: &str, fields: &[&str]) -> Descriptor {
    Descriptor::new(
        endpoint.to_string(),
        fields.iter().map(|f| f.to_string()).collect(),
        Vec::new(),
    )
}

#[test]
fn field_name_ordering() {
    let d = desc("users", &["a", "b", "c"]);
    assert_eq!(d.field_names(), vec!["resource_type", "a", "b", "c"]);
}

#[test]
fn field_names_without_declared_fields() {
    let d = desc("sections", &[]);
    assert_eq!(d.field_names(), vec!["resource_type"]);
}

#[test]
fn endpoint_is_kept() {
    let d = desc("projects", &["name"]);
    assert_eq!(d.endpoint(), "projects");
}

#[test]
fn inclusion_string_shape() {
    let project = desc("projects", &["name"]);
    let task = Descriptor::new(
        "tasks".to_string(),
        vec!["name".to_string()],
        vec![project.as_relation()],
    );
    assert_eq!(task.opt_strings(), vec!["projects.(resource_type|name)"]);
}

#[test]
fn opt_strings_empty_without_relations() {
    let d = desc("users", &["email", "name"]);
    assert_eq!(d.opt_strings(), Vec::<String>::new());
}

#[test]
fn opt_strings_keep_declaration_order() {
    let a = desc("projects", &["name"]);
    let b = desc("assignee", &[]);
    let task = Descriptor::new(
        "tasks".to_string(),
        vec!["name".to_string()],
        vec![a.as_relation(), b.as_relation()],
    );
    assert_eq!(
        task.opt_strings(),
        vec!["projects.(resource_type|name)", "assignee.(resource_type)"]
    );
}

#[test]
fn opt_fields_value_without_relations() {
    let d = desc("users", &["email", "name"]);
    assert_eq!(d.opt_fields_value(), "this.(resource_type|email|name),");
}

#[test]
fn opt_fields_value_with_relation() {
    let project = desc("projects", &["name"]);
    let task = Descriptor::new(
        "tasks".to_string(),
        vec!["name".to_string()],
        vec![project.as_relation()],
    );
    assert_eq!(
        task.opt_fields_value(),
        "this.(resource_type|name),projects.(resource_type|name)"
    );
}

#[test]
fn relation_fields_are_copied() {
    let d = desc("projects", &["name", "color"]);
    let r: Relation = d.as_relation();
    assert_eq!(r.endpoint, "projects");
    assert_eq!(r.fields, vec!["name", "color"]);
}

struct User;

impl Model for User {
    fn endpoint() -> String {
        user_descriptor().endpoint()
    }

    fn field_names() -> Vec<String> {
        user_descriptor().field_names()
    }

    fn opt_strings() -> Vec<String> {
        user_descriptor().opt_strings()
    }
}

fn user_descriptor() -> Descriptor {
    Descriptor::new(
        "users".to_string(),
        vec!["email".to_string(), "name".to_string()],
        Vec::new(),
    )
}

#[test]
fn model_impl_delegates_to_descriptor() {
    assert_eq!(User::endpoint(), "users");
    assert_eq!(User::field_names(), vec!["resource_type", "email", "name"]);
    assert_eq!(User::opt_strings(), Vec::<String>::new());
}
