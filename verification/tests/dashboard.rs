use chrono::{DateTime, Local};
use smart_horizoker::clock::{Moment, LOG_INTERVAL, REFRESH_INTERVAL, STATS_INTERVAL};
use smart_horizoker::compose::{ComposeConfig, ComposeService, ContainerSummary};
use smart_horizoker::dashboard::{ComposeLookup, DaemonRequest, DockerGuiApp, Panel};
use smart_horizoker::inspect::{ConfigReport, InspectReport, PublishedPort};
use smart_horizoker::model::{ContainerState, PortMapping};
use smart_horizoker::stats::StatsSample;

fn project(names: Vec<&str>) -> ComposeConfig {
    let mut services = vec![];
    for name in names {
        let service =
            ComposeService { image: "i".to_string(), container_name: Some(name.to_string()) };
        services.push((name.to_string(), service));
    }
    ComposeConfig { services }
}

fn opened(names: Vec<&str>) -> DockerGuiApp<String> {
    let mut app = DockerGuiApp::new(true, "/p".to_string());
    let lookup = ComposeLookup::Found { path: "/p/f".to_string(), config: Some(project(names)) };
    app.check_compose_file(lookup, 0);
    app
}

#[test]
fn a_new_dashboard_is_empty() {
    let app = DockerGuiApp::new(false, "/home");
    assert!(!app.connected);
    assert_eq!(app.current_path, "/home");
    assert!(app.containers.is_empty());
    assert_eq!(app.compose_file, None);
    assert_eq!(app.last_update, None);
}

#[test]
fn directories_are_entered_and_left() {
    let mut app = DockerGuiApp::new(true, "/a/b");
    assert!(app.go_up(Some("/a")));
    assert_eq!(app.current_path, "/a");
    assert!(!app.go_up(None));
    assert_eq!(app.current_path, "/a");
    assert!(app.enter("/a/c", true));
    assert_eq!(app.current_path, "/a/c");
    assert!(!app.enter("/a/c/file", false));
    assert_eq!(app.current_path, "/a/c");
}

#[test]
fn a_project_is_shown_and_looked_at_once() {
    let mut app = DockerGuiApp::new(true, "/p".to_string());
    let lookup = || ComposeLookup::Found { path: "/p/f".to_string(), config: Some(project(vec!["web"])) };
    assert!(app.check_compose_file(lookup(), 7));
    assert_eq!(app.compose_file, Some("/p/f".to_string()));
    assert_eq!(app.last_update, Some(7));
    assert_eq!(app.containers.get("web"), Some(&ContainerState::default()));
    assert!(!app.check_compose_file(lookup(), 8));
    assert_eq!(app.last_update, Some(7));
}

#[test]
fn an_unreadable_project_changes_no_container() {
    let mut app = opened(vec!["web"]);
    let lookup = ComposeLookup::Found { path: "/q".to_string(), config: None };
    assert!(!app.check_compose_file(lookup, 99 * REFRESH_INTERVAL));
    assert_eq!(app.compose_file, Some("/q".to_string()));
    assert!(app.containers.get("web").is_some());
    assert_eq!(app.last_update, Some(0));
}

#[test]
fn without_a_compose_file_nothing_is_shown() {
    let mut app = opened(vec!["web"]);
    assert!(!app.check_compose_file(ComposeLookup::Missing, 99 * REFRESH_INTERVAL));
    assert_eq!(app.compose_file, None);
    assert!(app.containers.is_empty());
    assert_eq!(app.last_update, Some(0));
    assert!(!app.begin_frame(99 * REFRESH_INTERVAL));
}

#[test]
fn looks_are_half_a_second_apart() {
    let mut app = opened(vec!["web"]);
    assert!(!app.begin_frame(REFRESH_INTERVAL - 1));
    assert!(app.begin_frame(REFRESH_INTERVAL));
    assert!(!app.update_containers_if_needed(REFRESH_INTERVAL + 1));
    assert!(app.update_containers_if_needed(2 * REFRESH_INTERVAL));
    assert_eq!(app.last_update, Some(2 * REFRESH_INTERVAL));
}

#[test]
fn looking_needs_a_daemon_and_a_project() {
    let mut app = opened(vec!["web"]);
    assert_eq!(app.refresh_source(), Some(&"/p/f".to_string()));
    app.connected = false;
    assert_eq!(app.refresh_source(), None);
    assert_eq!(DockerGuiApp::new(true, "/p").refresh_source(), None);
}

#[test]
fn a_look_updates_the_status_and_keeps_the_log() {
    let mut app = opened(vec!["web"]);
    app.store_logs("web", "text\n".to_string(), 3);
    let listed = ContainerSummary {
        id: Some("1".to_string()),
        status: Some("Up 1 second".to_string()),
        names: Some(vec!["/web".to_string()]),
    };
    app.update_containers(&project(vec!["web"]), vec![listed]);
    let web = app.containers.get("web").unwrap();
    assert_eq!(web.status, "Up 1 second");
    assert_eq!(web.logs, "text\n");
    assert_eq!(web.last_log_update, Some(3));
}

#[test]
fn requests_need_a_daemon() {
    let mut app = opened(vec!["web"]);
    let id = "web".to_string();
    assert_eq!(app.start_container("web"), Some(DaemonRequest::Start { id: id.clone() }));
    assert_eq!(app.stop_container("web"), Some(DaemonRequest::Stop { id: id.clone(), timeout: 10 }));
    assert_eq!(app.restart_container("web"), Some(DaemonRequest::Restart { id, timeout: 10 }));
    app.connected = false;
    assert_eq!(app.start_container("web"), None);
    assert_eq!(app.stop_container("web"), None);
    assert_eq!(app.restart_container("web"), None);
}

#[test]
fn logs_are_read_once_a_second() {
    let mut app = opened(vec!["web"]);
    assert!(app.log_update_due("web", 0));
    assert!(app.log_update_due("unknown", 0));
    let chunk = "2024-05-06T07:08:09Z hello\n".to_string().into_bytes();
    app.update_container_logs("web", vec![chunk, vec![0xff]], 5);
    let clock = DateTime::parse_from_rfc3339("2024-05-06T07:08:09Z").unwrap().with_timezone(&Local);
    let web = app.containers.get("web").unwrap();
    assert_eq!(web.logs, format!("[{}] hello\n", clock.format("%H:%M:%S")));
    assert_eq!(web.last_log_update, Some(5));
    assert!(!app.log_update_due("web", 5 + LOG_INTERVAL - 1));
    assert!(app.log_update_due("web", 5 + LOG_INTERVAL));
    app.connected = false;
    assert!(!app.log_update_due("web", 5 + LOG_INTERVAL));
    assert!(!app.log_update_due("unknown", 0));
}

#[test]
fn statistics_are_read_every_two_seconds() {
    let mut app = opened(vec!["web"]);
    assert!(app.stats_update_due("web", 0));
    assert!(app.stats_update_due("unknown", 0));
    let sample = StatsSample {
        cpu_total: 2,
        precpu_total: 1,
        system_cpu: Some(4),
        presystem_cpu: Some(1),
        online_cpus: None,
        memory_usage: Some(5),
        memory_limit: Some(6),
        networks: None,
        io_bytes: None,
    };
    app.update_container_stats("web", &sample, 11);
    app.update_container_stats("unknown", &sample, 11);
    let web = app.containers.get("web").unwrap();
    assert_eq!(web.stats.memory_usage, 5);
    assert_eq!(web.stats.cpu_usage.unwrap().system_delta, 3);
    assert!(!app.stats_update_due("web", 11 + STATS_INTERVAL - 1));
    assert!(app.stats_update_due("web", 11 + STATS_INTERVAL));
    assert_eq!(app.containers.get("unknown"), None);
    app.connected = false;
    assert!(!app.stats_update_due("web", 11 + STATS_INTERVAL));
}

#[test]
fn reports_set_ports_and_facts() {
    let mut app = opened(vec!["web", "db"]);
    let report = || InspectReport {
        ports: Some(vec![PublishedPort {
            port: "80/tcp".to_string(),
            bindings: Some(vec![Some("8080".to_string())]),
        }]),
        config: Some(ConfigReport { image: Some("nginx".to_string()), env: None }),
        created: Some("1970-01-01T00:01:00Z".to_string()),
        mounts: None,
    };
    app.update_container_info("web", report());
    app.update_container_info("unknown", report());
    let web = app.containers.get("web").unwrap();
    let mapping =
        PortMapping { container_port: 80, host_port: 8080, protocol: "tcp".to_string() };
    assert_eq!(web.ports, vec![mapping]);
    assert_eq!(web.info.image, "nginx");
    assert_eq!(Some(web.info.created), Moment::new(60, 0));
    assert_eq!(app.containers.get("db"), Some(&ContainerState::default()));
    assert_eq!(app.containers.len(), 2);
}

#[test]
fn toggling_twice_restores_a_panel() {
    let mut app = opened(vec!["web", "db"]);
    for panel in [Panel::Details, Panel::Logs, Panel::Ports, Panel::Info] {
        assert_eq!(app.toggle("web", panel), panel == Panel::Logs);
        assert_ne!(app.containers.get("web"), Some(&ContainerState::default()));
        assert_eq!(app.containers.get("db"), Some(&ContainerState::default()));
        assert!(!app.toggle("web", panel));
        assert_eq!(app.containers.get("web"), Some(&ContainerState::default()));
    }
    assert!(!app.toggle("unknown", Panel::Logs));
    assert_eq!(app.containers.len(), 2);
}

#[test]
fn each_panel_has_its_own_switch() {
    let mut app = opened(vec!["web"]);
    app.toggle("web", Panel::Details);
    assert!(app.containers.get("web").unwrap().expanded);
    app.toggle("web", Panel::Logs);
    assert!(app.containers.get("web").unwrap().show_logs);
    app.toggle("web", Panel::Ports);
    assert!(app.containers.get("web").unwrap().show_ports);
    app.toggle("web", Panel::Info);
    assert!(app.containers.get("web").unwrap().show_info);
}

#[test]
fn news_of_unknown_containers_is_ignored() {
    let mut app = opened(vec!["web"]);
    app.store_logs("unknown", "text".to_string(), 1);
    assert_eq!(app.containers.get("web"), Some(&ContainerState::default()));
    assert_eq!(app.containers.get("unknown"), None);
}
