use smart_horizoker::clock::Moment;
use smart_horizoker::inspect::{
    read_binding, read_created, read_info, read_ports, ConfigReport, InspectReport, MountReport,
    PublishedPort,
};
use smart_horizoker::model::{ContainerInfo, PortMapping};

fn empty() -> InspectReport {
    InspectReport { ports: None, config: None, created: None, mounts: None }
}

fn port(number: &str, hosts: Option<Vec<Option<&str>>>) -> PublishedPort {
    let bindings = hosts.map(|h| h.into_iter().map(|p| p.map(|s| s.to_string())).collect());
    PublishedPort { port: number.to_string(), bindings }
}

fn mapping(container_port: u16, host_port: u16, protocol: &str) -> PortMapping {
    PortMapping { container_port, host_port, protocol: protocol.to_string() }
}

#[test]
fn an_empty_report_says_nothing() {
    assert_eq!(read_ports(&empty()), vec![]);
    assert_eq!(read_info(empty(), None), ContainerInfo::default());
    assert_eq!(read_created(&empty()), None);
    assert_eq!(ContainerInfo::default().created, Moment::epoch());
}

#[test]
fn bindings_become_mappings() {
    let report = InspectReport {
        ports: Some(vec![
            port("80/tcp", Some(vec![Some("8080"), Some("8081")])),
            port("53/udp", Some(vec![Some("5353")])),
            port("443", Some(vec![Some("8443")])),
            port("22/tcp", None),
        ]),
        ..empty()
    };
    assert_eq!(
        read_ports(&report),
        vec![
            mapping(80, 8080, "tcp"),
            mapping(80, 8081, "tcp"),
            mapping(53, 5353, "udp"),
            mapping(443, 8443, "tcp"),
        ]
    );
}

#[test]
fn bindings_without_numbers_are_left_out() {
    let report = InspectReport {
        ports: Some(vec![
            port("web/tcp", Some(vec![Some("8080")])),
            port("80/tcp", Some(vec![None, Some(""), Some("x"), Some("70000"), Some("81")])),
            port("90/", Some(vec![Some("+91")])),
        ]),
        ..empty()
    };
    assert_eq!(read_ports(&report), vec![mapping(80, 81, "tcp"), mapping(90, 91, "")]);
    assert_eq!(read_binding("80/sctp", &Some("81".to_string())), Some(mapping(80, 81, "sctp")));
    assert_eq!(read_binding("80/sctp", &None), None);
}

#[test]
fn facts_are_taken_over() {
    let report = InspectReport {
        config: Some(ConfigReport {
            image: Some("nginx:1".to_string()),
            env: Some(vec!["A=1".to_string(), "B=2".to_string()]),
        }),
        created: Some("2016-12-31T23:59:60.5Z".to_string()),
        mounts: Some(vec![
            MountReport { source: Some("/a".to_string()), destination: Some("/b".to_string()) },
            MountReport { source: None, destination: Some("/c".to_string()) },
            MountReport { source: Some("/d".to_string()), destination: None },
            MountReport { source: Some("/e".to_string()), destination: Some("/f".to_string()) },
        ]),
        ..empty()
    };
    let created = read_created(&report);
    assert_eq!(created, Moment::new(1483228799, 1_500_000_000));
    let info = read_info(report, created);
    assert_eq!(info.image, "nginx:1");
    assert_eq!(info.env, vec!["A=1", "B=2"]);
    assert_eq!(Some(info.created), Moment::new(1483228800, 500_000_000));
    assert_eq!(
        info.volumes,
        vec![("/a".to_string(), "/b".to_string()), ("/e".to_string(), "/f".to_string())]
    );
}

#[test]
fn a_wrong_time_stamp_means_the_epoch() {
    let report = InspectReport { created: Some("yesterday".to_string()), ..empty() };
    assert_eq!(read_created(&report), None);
    assert_eq!(read_info(report, None).created, Moment::epoch());
}

#[test]
fn published_lists_follow_each_other() {
    let first = || port("1/tcp", Some(vec![Some("11")]));
    let second = || port("2/udp", Some(vec![Some("22"), None]));
    let both = InspectReport { ports: Some(vec![first(), second()]), ..empty() };
    let mut parts = read_ports(&InspectReport { ports: Some(vec![first()]), ..empty() });
    parts.extend(read_ports(&InspectReport { ports: Some(vec![second()]), ..empty() }));
    assert_eq!(read_ports(&both), parts);
}
