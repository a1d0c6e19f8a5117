use asana_sdk::models::Descriptor;
use asana_sdk::Asana;

fn desc(endpoint: &str, fields: &[&str]) -> Descriptor {
    Descriptor::new(
        endpoint.to_string(),
        fields.iter().map(|f| f.to_string()).collect(),
        Vec::new(),
    )
}

#[test]
fn connect_builds_auth_header() {
    let client = Asana::connect("tok-123".to_string());
    assert_eq!(client.auth_header(), "Bearer tok-123");
}

#[test]
fn single_fetch_url() {
    let mut client = Asana::connect("t".to_string());
    let user = desc("users", &["email", "name"]);
    let url = client.request_url(&user, Some("42"));
    assert_eq!(
        url,
        "https://app.asana.com/api/1.0/users/42?opt_fields=this.(resource_type|email|name),"
    );
}

#[test]
fn list_url_has_trailing_slash_and_no_id() {
    let mut client = Asana::connect("t".to_string());
    let section = desc("sections", &["name"]);
    let url = client.request_url(&section, None);
    assert_eq!(
        url,
        "https://app.asana.com/api/1.0/sections/?opt_fields=this.(resource_type|name),"
    );
}

#[test]
fn scope_consumption() {
    let mut client = Asana::connect("t".to_string());
    let project = desc("projects", &["name"]);
    let section = desc("sections", &["name"]);

    client.from(&project, "111");
    let scoped = client.request_url(&section, Some("222"));
    assert!(scoped.starts_with("https://app.asana.com/api/1.0/projects/111/sections/222?"));

    let unscoped = client.request_url(&section, Some("333"));
    assert!(unscoped.starts_with("https://app.asana.com/api/1.0/sections/333?"));
}

#[test]
fn scope_is_consumed_by_list_calls_too() {
    let mut client = Asana::connect("t".to_string());
    let project = desc("projects", &["name"]);
    let section = desc("sections", &["name"]);

    client.from(&project, "12345678");
    let url = client.request_url(&section, None);
    assert_eq!(
        url,
        "https://app.asana.com/api/1.0/projects/12345678/sections/?opt_fields=this.(resource_type|name),"
    );
}

#[test]
fn scoping_chains_fluently() {
    let mut client = Asana::connect("t".to_string());
    let project = desc("projects", &["name"]);
    let section = desc("sections", &[]);
    let url = client.from(&project, "555").request_url(&section, None);
    assert_eq!(
        url,
        "https://app.asana.com/api/1.0/projects/555/sections/?opt_fields=this.(resource_type),"
    );
}

#[test]
fn relation_expansion_reaches_the_query() {
    let mut client = Asana::connect("t".to_string());
    let project = desc("projects", &["name"]);
    let task = Descriptor::new(
        "tasks".to_string(),
        vec!["name".to_string()],
        vec![project.as_relation()],
    );
    let url = client.request_url(&task, None);
    assert_eq!(
        url,
        "https://app.asana.com/api/1.0/tasks/?opt_fields=this.(resource_type|name),projects.(resource_type|name)"
    );
}
