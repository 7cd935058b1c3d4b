use docker_dns::config::{endpoint_for, Config, Endpoint};
use docker_dns::env::{EnvError, EnvValue};

#[test]
fn default_is_the_local_socket() {
    let c = Config::build(None, EnvValue::NotPresent).unwrap();
    assert!(matches!(c.endpoint, Endpoint::Socket(p) if p == "/var/run/docker.sock"));
}

#[test]
fn tcp_address_becomes_http_url() {
    let c = Config::build(Some(Ok("tcp://10.0.0.1:2375".to_string())), EnvValue::Parsed(500)).unwrap();
    match c.endpoint {
        Endpoint::Direct { url, timeout_milliseconds } => {
            assert_eq!(url, "http://10.0.0.1:2375");
            assert_eq!(timeout_milliseconds, 500);
        },
        Endpoint::Socket(_) => panic!("expected a direct endpoint"),
    }
}

#[test]
fn timeout_defaults_to_thirty() {
    let c = Config::build(Some(Ok("tcp://h:1".to_string())), EnvValue::NotPresent).unwrap();
    assert!(matches!(c.endpoint, Endpoint::Direct { timeout_milliseconds: 30, .. }));
}

#[test]
fn other_paths_are_sockets() {
    assert!(matches!(endpoint_for("/run/podman.sock", 5), Endpoint::Socket(p) if p == "/run/podman.sock"));
    assert!(matches!(endpoint_for("tcp:/", 5), Endpoint::Socket(p) if p == "tcp:/"));
}

#[test]
fn bad_settings_are_errors() {
    let e = Config::build(Some(Err("x\u{fffd}".to_string())), EnvValue::NotPresent).unwrap_err();
    assert!(matches!(e, EnvError::NotUnicode { name, .. } if name == "DOCKER_SOCK"));
    let e = Config::build(None, EnvValue::Unparsable).unwrap_err();
    assert!(matches!(e, EnvError::Unparsable { name } if name == "CURL_TIMEOUT"));
}
