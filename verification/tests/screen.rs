use chrono::{DateTime, Local, Utc};
use smart_horizoker::clock::Moment;
use smart_horizoker::compose::{ComposeConfig, ComposeService};
use smart_horizoker::dashboard::{ComposeLookup, DockerGuiApp, Panel};
use smart_horizoker::model::{ContainerInfo, ContainerState, ContainerStats, PortMapping};
use smart_horizoker::screen::{
    container_card, entry_row, is_running, CentralView, Control, EntryRow, InfoPanel, LogsPanel,
    PortRow, COMPOSE_FILE_NAME,
};

fn state(status: &str) -> ContainerState {
    ContainerState {
        name: "web".to_string(),
        status: status.to_string(),
        ..ContainerState::default()
    }
}

fn full() -> ContainerState {
    ContainerState {
        logs: "a\nb\n".to_string(),
        show_logs: true,
        show_ports: true,
        show_info: true,
        expanded: true,
        ports: vec![
            PortMapping { container_port: 80, host_port: 8080, protocol: "tcp".to_string() },
            PortMapping { container_port: 53, host_port: 5353, protocol: "udp".to_string() },
        ],
        info: ContainerInfo {
            image: "nginx".to_string(),
            created: Moment::parse("2024-05-06T07:08:09Z").unwrap(),
            env: vec!["A=1".to_string()],
            volumes: vec![("/a".to_string(), "/b".to_string())],
        },
        ..state("Up 3 minutes")
    }
}

#[test]
fn rows_of_the_file_browser() {
    let row = |label: &str, is_compose| EntryRow { label: label.to_string(), is_compose };
    assert_eq!(entry_row(Some("src".to_string()), true), row("📁 src", false));
    assert_eq!(entry_row(Some("a.txt".to_string()), false), row("📄 a.txt", false));
    assert_eq!(entry_row(None, false), row("📄 ???", false));
    assert_eq!(
        entry_row(Some(COMPOSE_FILE_NAME.to_string()), false),
        row("📄 docker-compose.yml", true)
    );
    assert_eq!(
        entry_row(Some("my-docker-compose.yml".to_string()), false),
        row("📄 my-docker-compose.yml", false)
    );
}

#[test]
fn containers_that_are_up_run() {
    assert!(is_running("Up 3 hours (healthy)"));
    assert!(!is_running("Exited (0) 2 hours ago"));
    assert!(!is_running(""));
}

#[test]
fn a_running_container_can_be_stopped_and_restarted() {
    let card = container_card("id", &state("Up 1 second"), 0);
    assert!(card.running);
    assert_eq!((card.id.as_str(), card.title.as_str()), ("id", "web"));
    assert_eq!(card.status, "Up 1 second");
    assert_eq!(card.color, (50, 200, 100));
    assert_eq!(card.controls, vec![Control::Stop, Control::Restart]);
    assert_eq!(card.expand_label, "🔽");
    assert_eq!(card.details, None);
}

#[test]
fn a_stopped_container_can_be_started() {
    let card = container_card("id", &state("Exited (1)"), 0);
    assert!(!card.running);
    assert_eq!(card.color, (200, 50, 50));
    assert_eq!(card.controls, vec![Control::Start]);
    assert_eq!(card.memory, None);
}

#[test]
fn memory_is_shown_against_its_limit() {
    let mut busy = state("Up");
    assert_eq!(container_card("id", &busy, 0).memory.unwrap().share, None);
    busy.stats = ContainerStats { memory_usage: 1536, memory_limit: 1 << 30, ..busy.stats };
    let memory = container_card("id", &busy, 0).memory.unwrap();
    assert_eq!(memory.share, Some((1536, 1 << 30)));
    assert_eq!(memory.hint, "Использовано 1.50 KB из 1.00 GB");
    assert_eq!(container_card("id", &busy, 0).stats, busy.stats);
}

#[test]
fn open_panels_are_laid_out() {
    let card = container_card("id", &full(), 3600);
    assert_eq!(card.expand_label, "🔼");
    let details = card.details.unwrap();
    assert_eq!(details.logs_label, "🔽 Скрыть логи");
    assert_eq!(details.ports_label, Some("🔽 Скрыть порты".to_string()));
    assert_eq!(details.info_label, "🔽 Скрыть информацию");
    assert!(details.terminal);
    assert_eq!(details.logs, Some(LogsPanel { rows: 3, text: "a\nb\n".to_string() }));
    let row = |container: &str, host: &str, protocol: &str, browse| PortRow {
        container: container.to_string(),
        host: host.to_string(),
        protocol: protocol.to_string(),
        browse,
    };
    assert_eq!(
        details.ports,
        Some(vec![row("80", "8080", "tcp", Some(8080)), row("53", "5353", "udp", None)])
    );
    assert_eq!(
        details.info,
        Some(InfoPanel {
            image: "nginx".to_string(),
            created: "2024-05-06 08:08:09".to_string(),
            env: Some(vec!["A=1".to_string()]),
            volumes: Some(vec![("/a".to_string(), "/b".to_string())]),
        })
    );
}

#[test]
fn closed_panels_are_left_out() {
    let mut closed = ContainerState { expanded: true, ..state("Exited") };
    let details = container_card("id", &closed, 0).details.unwrap();
    assert_eq!(details.logs_label, "🔼 Показать логи");
    assert_eq!(details.ports_label, None);
    assert_eq!(details.info_label, "🔼 Показать информацию");
    assert!(!details.terminal);
    assert_eq!((details.logs, details.ports, details.info), (None, None, None));
    closed.show_ports = true;
    assert_eq!(container_card("id", &closed, 0).details.unwrap().ports, None);
    closed.show_ports = false;
    closed.ports = full().ports;
    let details = container_card("id", &closed, 0).details.unwrap();
    assert_eq!(details.ports_label, Some("🔼 Показать порты".to_string()));
    assert_eq!(details.ports, None);
    closed.show_info = true;
    let info = container_card("id", &closed, 0).details.unwrap().info.unwrap();
    assert_eq!((info.env, info.volumes), (None, None));
    assert_eq!(info.created, "1970-01-01 00:00:00");
    closed.show_logs = true;
    let logs = container_card("id", &closed, 0).details.unwrap().logs.unwrap();
    assert_eq!(logs.rows, 1);
}

#[test]
fn the_centre_follows_the_project() {
    let mut app = DockerGuiApp::new(true, "/p".to_string());
    assert!(matches!(app.central_view(), CentralView::NoProject));
    let empty = ComposeConfig { services: vec![] };
    app.check_compose_file(ComposeLookup::Found { path: "f".to_string(), config: Some(empty) }, 0);
    assert!(matches!(app.central_view(), CentralView::NoContainers));
    let service = |name: &str| {
        (
            name.to_string(),
            ComposeService { image: "i".to_string(), container_name: Some(name.to_string()) },
        )
    };
    let two = ComposeConfig { services: vec![service("b"), service("a")] };
    app.check_compose_file(ComposeLookup::Found { path: "f".to_string(), config: Some(two) }, 0);
    app.toggle("a", Panel::Details);
    app.toggle("a", Panel::Info);
    match app.central_view() {
        CentralView::Cards(cards) => {
            assert_eq!(cards.len(), 2);
            assert_eq!(cards[0].id, "b");
            assert_eq!(cards[1].id, "a");
            assert_eq!(cards[0].details, None);
            let epoch: DateTime<Local> = DateTime::<Utc>::from_timestamp(0, 0).unwrap().into();
            let info = cards[1].details.as_ref().unwrap().info.as_ref().unwrap();
            assert_eq!(info.created, epoch.format("%Y-%m-%d %H:%M:%S").to_string());
        }
        _ => panic!("cards expected"),
    }
}
