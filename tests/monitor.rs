use docker_dns::event::{Event, EventActor, EventScope, EventType};
use docker_dns::inspect::{
    ContainerConfig, ContainerInspect, ContainerNetwork, ContainerNetworkSettings, ContainerState,
};
use docker_dns::ip::{Cidr, IpAddress};
use docker_dns::monitor::{classify, EventAction, Monitor, RenameOutcome};
use docker_dns::table::{AuthorityWrapper, TableError};

fn event(kind: EventType, action: &str, attrs: &[(&str, &str)]) -> Event {
    Event {
        kind,
        action: action.to_string(),
        actor: EventActor {
            id: "abc".to_string(),
            attributes: attrs.iter().map(|(k, v)| (k.to_string(), v.to_string())).collect(),
        },
        scope: EventScope::Local,
        time: 1,
        time_nano: 1,
    }
}

fn inspect(running: bool, addresses: &[&str]) -> ContainerInspect {
    ContainerInspect {
        name: "/web".to_string(),
        id: "abc".to_string(),
        config: ContainerConfig { hostname: "abc".to_string(), labels: vec![] },
        state: ContainerState { running },
        network_settings: ContainerNetworkSettings {
            networks: addresses
                .iter()
                .enumerate()
                .map(|(i, a)| (format!("net{}", i), ContainerNetwork { ip_address: a.to_string() }))
                .collect(),
        },
    }
}

fn monitor() -> Monitor {
    Monitor::new(AuthorityWrapper::new("docker.local".to_string(), vec![]), "docker.local".to_string())
}

const COMPOSE: &[(&str, &str)] = &[
    ("name", "web"),
    ("com.docker.compose.project", "demo"),
    ("com.docker.compose.service", "web"),
    ("com.docker.compose.container-number", "1"),
];

#[test]
fn start_registers_every_name_at_the_address() {
    let mut m = monitor();
    let e = event(EventType::Container, "start", COMPOSE);
    assert_eq!(classify(&e), EventAction::Start);
    let c = inspect(true, &["10.0.0.5"]);
    assert_eq!(c.ip_addresses(), vec!["10.0.0.5".to_string()]);
    let addr = IpAddress::V4(u32::from_be_bytes([10, 0, 0, 5]));
    let failures = m.handle_start(&e, &c, &vec![Some(addr)]);
    assert!(failures.is_empty());
    for name in ["web.docker.local", "1.web.demo.docker.local", "web.demo.docker.local"] {
        assert_eq!(m.authority().lookup(name), vec![addr], "{}", name);
    }
    let targets: Vec<&String> = m
        .authority()
        .reverse_records()
        .iter()
        .filter(|(p, _)| p == "5.0.0.10.in-addr.arpa")
        .map(|(_, t)| t)
        .collect();
    assert!(!targets.is_empty());
    assert!(targets.iter().all(|t| [
        "web.docker.local",
        "1.web.demo.docker.local",
        "web.demo.docker.local"
    ]
    .contains(&t.as_str())));
}

#[test]
fn start_of_stopped_container_changes_nothing() {
    let mut m = monitor();
    let e = event(EventType::Container, "start", COMPOSE);
    let addr = IpAddress::V4(1);
    m.handle_start(&e, &inspect(false, &["0.0.0.1"]), &vec![Some(addr)]);
    assert!(m.authority().forward_records().is_empty());
}

#[test]
fn start_skips_unparsed_addresses_and_reports_refusals() {
    let range = Cidr::new(IpAddress::V4(u32::from_be_bytes([172, 17, 0, 0])), 16).unwrap();
    let mut m = Monitor::new(
        AuthorityWrapper::new("docker.local".to_string(), vec![range]),
        "docker.local".to_string(),
    );
    let e = event(EventType::Container, "start", &[("name", "db")]);
    let ok = IpAddress::V4(u32::from_be_bytes([10, 0, 0, 8]));
    let banned = IpAddress::V4(u32::from_be_bytes([172, 17, 0, 2]));
    let failures = m.handle_start(&e, &inspect(true, &["x", "10.0.0.8", "172.17.0.2"]), &vec![None, Some(ok), Some(banned)]);
    assert_eq!(m.authority().lookup("db.docker.local"), vec![ok]);
    assert_eq!(failures.len(), 1);
    assert_eq!(failures[0].name, "db.docker.local");
    assert_eq!(failures[0].address, banned);
    assert_eq!(failures[0].error, TableError::Blacklisted);
}

#[test]
fn die_removes_every_name() {
    let mut m = monitor();
    let e = event(EventType::Container, "start", COMPOSE);
    let addr = IpAddress::V4(5);
    m.handle_start(&e, &inspect(true, &["0.0.0.5"]), &vec![Some(addr)]);
    let d = event(EventType::Container, "die", COMPOSE);
    assert_eq!(classify(&d), EventAction::Die);
    let answers = m.handle_die(&d);
    assert_eq!(answers.len(), 3);
    assert_eq!(answers[0].0, "web.docker.local");
    assert_eq!(answers[0].1, Ok(vec![addr]));
    assert!(m.authority().forward_records().is_empty());
    assert!(m.authority().reverse_records().is_empty());
}

#[test]
fn rename_moves_the_sanitized_names() {
    let mut m = monitor();
    let addr = IpAddress::V4(7);
    m.handle_start(&event(EventType::Container, "start", &[("name", "old")]), &inspect(true, &["0.0.0.7"]), &vec![Some(addr)]);
    let r = event(EventType::Container, "rename", &[("oldName", "/old"), ("name", "new_one")]);
    assert_eq!(classify(&r), EventAction::Rename);
    assert!(matches!(m.handle_rename(&r), RenameOutcome::Renamed(Ok(true))));
    assert!(m.authority().lookup("old.docker.local").is_empty());
    assert_eq!(m.authority().lookup("newone.docker.local"), vec![addr]);
}

#[test]
fn rename_without_both_names_does_nothing() {
    let mut m = monitor();
    let r = event(EventType::Container, "rename", &[("name", "new")]);
    assert!(matches!(m.handle_rename(&r), RenameOutcome::MissingNames));
    let r = event(EventType::Container, "rename", &[("oldName", "/old")]);
    assert!(matches!(m.handle_rename(&r), RenameOutcome::MissingNames));
}

#[test]
fn rename_of_unknown_container_is_not_an_error() {
    let mut m = monitor();
    let r = event(EventType::Container, "rename", &[("oldName", "/ghost"), ("name", "new")]);
    assert!(matches!(m.handle_rename(&r), RenameOutcome::Renamed(Ok(false))));
    assert!(m.authority().forward_records().is_empty());
}

#[test]
fn only_container_lifecycle_events_count() {
    assert_eq!(classify(&event(EventType::Image, "start", &[])), EventAction::Ignore);
    assert_eq!(classify(&event(EventType::Container, "pause", &[])), EventAction::Ignore);
    assert_eq!(classify(&event(EventType::Network, "die", &[])), EventAction::Ignore);
}
