//! Services and their routes.
use numa::service_store::{RouteEntry, ServiceEntry, ServiceStore};

fn entry(port: u16, routes: Vec<RouteEntry>) -> ServiceEntry {
    ServiceEntry {
        name: "app".into(),
        target_port: port,
        target_host: None,
        routes,
    }
}

fn route(path: &str, port: u16, strip: bool) -> RouteEntry {
    RouteEntry {
        path: path.into(),
        port,
        strip,
    }
}

fn test_store() -> ServiceStore {
    ServiceStore::new()
}

// --- resolve_route ---

#[test]
fn no_routes_returns_default_port() {
    let e = entry(3000, vec![]);
    assert_eq!(e.resolve_route("/anything"), (3000, "/anything".into()));
}

#[test]
fn exact_match() {
    let e = entry(3000, vec![route("/api", 4000, false)]);
    assert_eq!(e.resolve_route("/api"), (4000, "/api".into()));
}

#[test]
fn prefix_match() {
    let e = entry(3000, vec![route("/api", 4000, false)]);
    assert_eq!(e.resolve_route("/api/users"), (4000, "/api/users".into()));
}

#[test]
fn segment_boundary_rejects_partial() {
    let e = entry(3000, vec![route("/api", 4000, false)]);
    // /apiary must NOT match /api — different segment
    assert_eq!(e.resolve_route("/apiary"), (3000, "/apiary".into()));
}

#[test]
fn segment_boundary_rejects_apikey() {
    let e = entry(3000, vec![route("/api", 4000, false)]);
    assert_eq!(e.resolve_route("/apikey"), (3000, "/apikey".into()));
}

#[test]
fn longest_prefix_wins() {
    let e = entry(
        3000,
        vec![route("/api", 4000, false), route("/api/v2", 5000, false)],
    );
    assert_eq!(
        e.resolve_route("/api/v2/users"),
        (5000, "/api/v2/users".into())
    );
    // shorter prefix still works for non-v2 paths
    assert_eq!(
        e.resolve_route("/api/v1/users"),
        (4000, "/api/v1/users".into())
    );
}

#[test]
fn strip_removes_prefix() {
    let e = entry(3000, vec![route("/api", 4000, true)]);
    assert_eq!(e.resolve_route("/api/users"), (4000, "/users".into()));
}

#[test]
fn strip_exact_path_gives_root() {
    let e = entry(3000, vec![route("/api", 4000, true)]);
    assert_eq!(e.resolve_route("/api"), (4000, "/".into()));
}

#[test]
fn trailing_slash_route_matches() {
    let e = entry(3000, vec![route("/app/", 4000, false)]);
    assert_eq!(
        e.resolve_route("/app/dashboard"),
        (4000, "/app/dashboard".into())
    );
}

// --- ServiceStore: add_route / remove_route ---

#[test]
fn add_route_to_existing_service() {
    let mut store = test_store();
    store.insert_from_config("app", 3000, None, vec![]);
    assert!(store.add_route("app", "/api".into(), 4000, false));
    let entry = store.lookup("app").unwrap();
    assert_eq!(entry.routes.len(), 1);
    assert_eq!(entry.routes[0].path, "/api");
}

#[test]
fn add_route_to_missing_service_returns_false() {
    let mut store = test_store();
    assert!(!store.add_route("ghost", "/api".into(), 4000, false));
}

#[test]
fn add_route_deduplicates_by_path() {
    let mut store = test_store();
    store.insert_from_config("app", 3000, None, vec![]);
    store.add_route("app", "/api".into(), 4000, false);
    store.add_route("app", "/api".into(), 5000, true);
    let entry = store.lookup("app").unwrap();
    assert_eq!(entry.routes.len(), 1);
    assert_eq!(entry.routes[0].port, 5000);
    assert!(entry.routes[0].strip);
}

#[test]
fn remove_route_returns_true_when_found() {
    let mut store = test_store();
    store.insert_from_config("app", 3000, None, vec![route("/api", 4000, false)]);
    assert!(store.remove_route("app", "/api"));
    assert!(store.lookup("app").unwrap().routes.is_empty());
}

#[test]
fn remove_route_returns_false_when_missing() {
    let mut store = test_store();
    store.insert_from_config("app", 3000, None, vec![]);
    assert!(!store.remove_route("app", "/nope"));
}

#[test]
fn lookup_is_case_insensitive() {
    let mut store = test_store();
    store.insert_from_config("MyApp", 3000, None, vec![]);
    assert!(store.lookup("myapp").is_some());
    assert!(store.lookup("MYAPP").is_some());
}

#[test]
fn services_of_the_configuration_stay() {
    let mut store = test_store();
    store.insert_from_config("app", 3000, None, vec![]);
    let kept = vec![entry(9999, vec![]), ServiceEntry {
        name: "Other".into(),
        target_port: 80,
        target_host: None,
        routes: vec![],
    }];
    store.load_persisted(&kept);
    assert_eq!(store.lookup("app").unwrap().target_port, 3000);
    assert_eq!(store.lookup("other").unwrap().target_port, 80);
    assert!(store.is_config_service("app"));
    assert!(!store.is_config_service("other"));
    let names: Vec<String> = store.list().into_iter().map(|e| e.name.clone()).collect();
    assert_eq!(names, vec!["Other", "app"]);
    assert_eq!(store.user_services().len(), 1);
}

#[test]
fn new_names_are_told_from_known_ones() {
    let mut store = test_store();
    store.insert_from_config("app", 3000, None, vec![]);
    assert!(store.has_name("ghost"));
    assert!(!store.has_name("App"));
}

#[test]
fn listed_services_are_those_looked_up() {
    let mut store = test_store();
    store.insert("web", 1, None);
    store.insert("API", 2, None);
    let mut kept = entry(3, vec![]);
    kept.name = "Mail".to_string();
    store.load_persisted(&vec![kept]);
    let names: Vec<String> = store.list().into_iter().map(|e| e.name.clone()).collect();
    assert_eq!(names, vec!["Mail", "api", "web"]);
    for e in store.list() {
        assert_eq!(store.lookup(&e.name).unwrap().target_port, e.target_port);
    }
    assert_eq!(store.list().len(), store.names().len());
}

#[test]
fn own_service_is_not_kept() {
    let mut store = test_store();
    store.insert("numa", 5380, None);
    store.insert("app", 3000, None);
    let mut own = entry(5380, vec![]);
    own.name = "Numa".to_string();
    store.load_persisted(&vec![own]);
    let kept: Vec<String> = store.user_services().into_iter().map(|e| e.name).collect();
    assert_eq!(kept, vec!["app"]);
}
