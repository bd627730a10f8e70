use smart_horizoker::compose::{
    has_container, open_project, take_listing, ComposeConfig, ComposeService, ContainerSummary,
};
use smart_horizoker::model::ContainerState;
use smart_horizoker::table::ContainerTable;

fn project(names: Vec<Option<&str>>) -> ComposeConfig {
    let mut services = vec![];
    for name in names {
        let service = ComposeService {
            image: "image".to_string(),
            container_name: name.map(|n| n.to_string()),
        };
        services.push(("service".to_string(), service));
    }
    ComposeConfig { services }
}

fn summary(id: Option<&str>, status: Option<&str>, names: Option<Vec<&str>>) -> ContainerSummary {
    ContainerSummary {
        id: id.map(|s| s.to_string()),
        status: status.map(|s| s.to_string()),
        names: names.map(|n| n.into_iter().map(|s| s.to_string()).collect()),
    }
}

fn order(table: &ContainerTable) -> Vec<String> {
    (0..table.len()).map(|i| table.entry(i).0.clone()).collect()
}

#[test]
fn an_open_project_shows_its_names_once() {
    let mut table = ContainerTable::new();
    table.insert("old".to_string(), ContainerState::default());
    open_project(&mut table, &project(vec![Some("web"), None, Some("db"), Some("web")]));
    assert_eq!(order(&table), vec!["web", "db"]);
    assert_eq!(table.get("web"), Some(&ContainerState::default()));
    assert_eq!(table.get("old"), None);
    open_project(&mut table, &project(vec![]));
    assert!(table.is_empty());
}

#[test]
fn services_name_their_containers() {
    let config = project(vec![None, Some("db")]);
    assert!(has_container(&config, &"db".to_string()));
    assert!(!has_container(&config, &"service".to_string()));
    assert!(!has_container(&config, &"".to_string()));
}

#[test]
fn the_listing_renews_what_the_project_has() {
    let config = project(vec![Some("web"), Some("abc")]);
    let mut table = ContainerTable::new();
    open_project(&mut table, &config);
    take_listing(
        &mut table,
        &config,
        vec![
            summary(Some("1"), Some("Up 2 hours"), Some(vec!["//web", "/other"])),
            summary(Some("abc"), Some("Exited (0)"), Some(vec![])),
            summary(Some("3"), Some("Up"), Some(vec!["/stranger"])),
            summary(None, Some("Up"), Some(vec!["/abc"])),
            summary(Some("5"), None, Some(vec!["/abc"])),
            summary(Some("6"), Some("Up"), None),
        ],
    );
    assert_eq!(order(&table), vec!["web", "abc"]);
    let web = table.get("web").unwrap();
    assert_eq!((web.name.as_str(), web.status.as_str()), ("web", "Up 2 hours"));
    assert_eq!(table.get("abc").unwrap().status, "Exited (0)");
    assert_eq!(table.get("stranger"), None);
}

#[test]
fn the_listing_keeps_the_log_and_resets_the_rest() {
    let config = project(vec![Some("web")]);
    let mut table = ContainerTable::new();
    let known = ContainerState {
        logs: "text".to_string(),
        show_logs: true,
        last_log_update: Some(3),
        expanded: true,
        show_info: true,
        show_ports: true,
        ..ContainerState::default()
    };
    table.insert("web".to_string(), known);
    take_listing(&mut table, &config, vec![summary(Some("1"), Some("Up"), Some(vec!["/web"]))]);
    let expected = ContainerState {
        name: "web".to_string(),
        status: "Up".to_string(),
        logs: "text".to_string(),
        show_logs: true,
        last_log_update: Some(3),
        ..ContainerState::default()
    };
    assert_eq!(table.get("web"), Some(&expected));
}

#[test]
fn the_same_listing_twice_changes_nothing_more() {
    let config = project(vec![Some("a"), Some("b")]);
    let listing = || {
        vec![
            summary(Some("1"), Some("Up"), Some(vec!["/b"])),
            summary(Some("2"), Some("Exited"), Some(vec!["/a"])),
            summary(Some("3"), Some("Created"), Some(vec!["/b"])),
        ]
    };
    let mut table = ContainerTable::new();
    take_listing(&mut table, &config, listing());
    assert_eq!(order(&table), vec!["b", "a"]);
    assert_eq!(table.get("b").unwrap().status, "Created");
    let once = (table.get("a").cloned(), table.get("b").cloned());
    take_listing(&mut table, &config, listing());
    assert_eq!(order(&table), vec!["b", "a"]);
    assert_eq!((table.get("a").cloned(), table.get("b").cloned()), once);
}

#[test]
fn unlisted_containers_stay() {
    let config = project(vec![Some("a"), Some("b")]);
    let mut table = ContainerTable::new();
    open_project(&mut table, &config);
    take_listing(&mut table, &config, vec![]);
    assert_eq!(order(&table), vec!["a", "b"]);
    assert_eq!(table.get("a"), Some(&ContainerState::default()));
}

#[test]
fn tables_exchange_states_in_place() {
    let mut table = ContainerTable::new();
    for name in ["x", "y", "z"] {
        table.insert(name.to_string(), ContainerState::default());
    }
    let mut state = ContainerState { status: "new".to_string(), ..ContainerState::default() };
    assert!(table.exchange("y", &mut state));
    assert_eq!(state, ContainerState::default());
    assert_eq!(table.get("y").unwrap().status, "new");
    assert_eq!(order(&table), vec!["x", "y", "z"]);
    assert!(!table.exchange("w", &mut state));
    table.clear();
    assert!(table.is_empty());
    assert_eq!(table.len(), 0);
}

#[test]
fn an_open_project_keeps_its_order() {
    let config = project(vec![Some("a"), None, Some("b"), Some("c")]);
    let mut table = ContainerTable::new();
    open_project(&mut table, &config);
    let listing = vec![
        summary(Some("1"), Some("Up"), Some(vec!["/c"])),
        summary(Some("2"), Some("Up"), Some(vec!["/stranger"])),
        summary(Some("3"), Some("Up"), Some(vec!["/a"])),
    ];
    take_listing(&mut table, &config, listing);
    assert_eq!(order(&table), vec!["a", "b", "c"]);
    assert_eq!(table.get("stranger"), None);
}
