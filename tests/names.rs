use docker_dns::event::{Event, EventActor, EventScope, EventType};
use docker_dns::names::{get_all_names, qualify};
use docker_dns::text::{parse_decimal, pretty_print_vec, push_decimal, sanitize, str_equal};

fn event_with(attrs: &[(&str, &str)]) -> Event {
    Event {
        kind: EventType::Container,
        action: "start".to_string(),
        actor: EventActor {
            id: "abc".to_string(),
            attributes: attrs.iter().map(|(k, v)| (k.to_string(), v.to_string())).collect(),
        },
        scope: EventScope::Local,
        time: 0,
        time_nano: 0,
    }
}

#[test]
fn sanitized_name_drops_invalid_characters() {
    let names = get_all_names(&event_with(&[("name", "web*1")]));
    assert_eq!(names, vec!["web1".to_string()]);
}

#[test]
fn sanitize_keeps_letters_digits_dots_and_dashes() {
    assert_eq!(sanitize("/my_app.v-2!"), "myapp.v-2");
    assert_eq!(sanitize(""), "");
    assert_eq!(sanitize("ümlaut"), "mlaut");
}

#[test]
fn compose_first_instance_has_short_alias() {
    let names = get_all_names(&event_with(&[
        ("com.docker.compose.project", "demo"),
        ("com.docker.compose.service", "web"),
        ("com.docker.compose.container-number", "1"),
        ("name", "c1"),
    ]));
    assert_eq!(names, vec!["c1", "1.web.demo", "web.demo"]);
}

#[test]
fn compose_later_instance_has_no_short_alias() {
    let names = get_all_names(&event_with(&[
        ("com.docker.compose.project", "demo"),
        ("com.docker.compose.service", "web"),
        ("com.docker.compose.container-number", "2"),
        ("name", "c1"),
    ]));
    assert_eq!(names, vec!["c1", "2.web.demo"]);
}

#[test]
fn compose_instance_defaults_to_one() {
    let missing = get_all_names(&event_with(&[
        ("com.docker.compose.project", "demo"),
        ("com.docker.compose.service", "web"),
    ]));
    assert_eq!(missing, vec!["1.web.demo", "web.demo"]);
    let unparsable = get_all_names(&event_with(&[
        ("com.docker.compose.project", "demo"),
        ("com.docker.compose.service", "web"),
        ("com.docker.compose.container-number", "two"),
    ]));
    assert_eq!(unparsable, vec!["1.web.demo", "web.demo"]);
}

#[test]
fn compose_needs_service_and_project() {
    let names = get_all_names(&event_with(&[("com.docker.compose.project", "demo"), ("name", "x")]));
    assert_eq!(names, vec!["x"]);
}

#[test]
fn no_attributes_give_no_names() {
    assert!(get_all_names(&event_with(&[])).is_empty());
}

#[test]
fn deriving_names_is_deterministic() {
    let e = event_with(&[
        ("com.docker.compose.project", "demo"),
        ("com.docker.compose.service", "web"),
        ("com.docker.compose.container-number", "3"),
        ("name", "c*3"),
    ]);
    let first = get_all_names(&e);
    let second = get_all_names(&e);
    assert_eq!(first, second);
    assert_eq!(first, vec!["c3", "3.web.demo"]);
}

#[test]
fn parse_decimal_follows_std() {
    assert_eq!(parse_decimal("42"), Some(42));
    assert_eq!(parse_decimal("+7"), Some(7));
    assert_eq!(parse_decimal("0"), Some(0));
    assert_eq!(parse_decimal(""), None);
    assert_eq!(parse_decimal("+"), None);
    assert_eq!(parse_decimal("-1"), None);
    assert_eq!(parse_decimal("1a"), None);
    assert_eq!(parse_decimal("18446744073709551615"), Some(usize::MAX));
    assert_eq!(parse_decimal("18446744073709551616"), None);
    for s in ["12", "+3", "x", "", "007"] {
        assert_eq!(parse_decimal(s), s.parse::<usize>().ok());
    }
}

#[test]
fn push_decimal_writes_numerals() {
    let mut s = String::from("n");
    push_decimal(&mut s, 0);
    push_decimal(&mut s, 1903);
    assert_eq!(s, "n01903");
    let mut m = String::new();
    push_decimal(&mut m, u64::MAX);
    assert_eq!(m, u64::MAX.to_string());
}

#[test]
fn qualify_appends_domain() {
    assert_eq!(qualify("web", "docker.local"), "web.docker.local");
}

#[test]
fn str_equal_compares_characters() {
    assert!(str_equal("abc", "abc"));
    assert!(!str_equal("abc", "abd"));
    assert!(!str_equal("abc", "ab"));
}

#[test]
fn pretty_print_vec_joins_with_commas() {
    assert_eq!(pretty_print_vec(&vec![]), "");
    assert_eq!(pretty_print_vec(&vec!["10.0.0.1".to_string()]), "10.0.0.1");
    assert_eq!(
        pretty_print_vec(&vec!["a".to_string(), "b".to_string(), "c".to_string()]),
        "a, b, c"
    );
}
