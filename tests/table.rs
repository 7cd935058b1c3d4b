use docker_dns::ip::{is_blacklisted, reverse_lookup_name, Cidr, IpAddress};
use docker_dns::table::{AuthorityWrapper, TableError};

fn v4(a: u8, b: u8, c: u8, d: u8) -> IpAddress {
    IpAddress::V4(u32::from_be_bytes([a, b, c, d]))
}

fn table_with_blacklist() -> AuthorityWrapper {
    let range = Cidr::new(v4(172, 17, 0, 0), 16).unwrap();
    AuthorityWrapper::new("docker.local".to_string(), vec![range])
}

#[test]
fn blacklisted_address_is_never_registered() {
    let mut t = table_with_blacklist();
    let r = t.add("web.docker.local".to_string(), v4(172, 17, 3, 4));
    assert_eq!(r, Err(TableError::Blacklisted));
    assert!(t.lookup("web.docker.local").is_empty());
    assert!(t.forward_records().is_empty());
    assert!(t.reverse_records().is_empty());
}

#[test]
fn address_outside_blacklist_is_registered() {
    let mut t = table_with_blacklist();
    assert_eq!(t.add("web.docker.local".to_string(), v4(172, 18, 0, 1)), Ok(()));
    assert_eq!(t.lookup("web.docker.local"), vec![v4(172, 18, 0, 1)]);
}

#[test]
fn add_then_remove_leaves_no_forward_records() {
    let mut t = table_with_blacklist();
    t.add("web.docker.local".to_string(), v4(10, 0, 0, 5)).unwrap();
    t.add("web.docker.local".to_string(), v4(10, 0, 0, 6)).unwrap();
    let removed = t.remove("web.docker.local").unwrap();
    assert_eq!(removed, vec![v4(10, 0, 0, 5), v4(10, 0, 0, 6)]);
    assert!(t.lookup("web.docker.local").is_empty());
    assert!(t.reverse_records().is_empty());
}

#[test]
fn remove_of_absent_name_is_a_no_op() {
    let mut t = table_with_blacklist();
    t.add("a.docker.local".to_string(), v4(10, 0, 0, 1)).unwrap();
    assert_eq!(t.remove("b.docker.local"), Ok(vec![]));
    assert_eq!(t.lookup("a.docker.local"), vec![v4(10, 0, 0, 1)]);
}

#[test]
fn rename_of_absent_entry_succeeds_without_effect() {
    let mut t = table_with_blacklist();
    assert_eq!(t.rename("/old.docker.local", "new.docker.local"), Ok(false));
    assert!(t.lookup("old.docker.local").is_empty());
    assert!(t.lookup("new.docker.local").is_empty());
    assert_eq!(t.rename("not a valid name..", "new.docker.local"), Ok(false));
}

#[test]
fn rename_moves_addresses_and_reverse_records() {
    let mut t = table_with_blacklist();
    t.add("old.docker.local".to_string(), v4(10, 0, 0, 5)).unwrap();
    t.add("new.docker.local".to_string(), v4(10, 0, 0, 9)).unwrap();
    assert_eq!(t.rename("/old.docker.local", "new.docker.local"), Ok(true));
    assert!(t.lookup("old.docker.local").is_empty());
    assert_eq!(t.lookup("new.docker.local"), vec![v4(10, 0, 0, 5)]);
    assert!(t
        .reverse_records()
        .iter()
        .any(|(p, n)| p == "5.0.0.10.in-addr.arpa" && n == "new.docker.local"));
    assert!(!t.reverse_records().iter().any(|(_, n)| n == "old.docker.local"));
}

#[test]
fn rename_to_invalid_name_is_refused() {
    let mut t = table_with_blacklist();
    t.add("old.docker.local".to_string(), v4(10, 0, 0, 5)).unwrap();
    assert_eq!(t.rename("old.docker.local", "bad..name"), Err(TableError::InvalidName));
    assert_eq!(t.lookup("old.docker.local"), vec![v4(10, 0, 0, 5)]);
}

#[test]
fn invalid_name_is_refused() {
    let mut t = table_with_blacklist();
    assert_eq!(t.add("a..b".to_string(), v4(10, 0, 0, 1)), Err(TableError::InvalidName));
    assert!(t.forward_records().is_empty());
    assert_eq!(t.remove("a..b"), Err(TableError::InvalidName));
}

#[test]
fn leading_dot_becomes_wildcard() {
    let mut t = table_with_blacklist();
    t.add(".web.docker.local".to_string(), v4(10, 0, 0, 7)).unwrap();
    assert_eq!(t.lookup("*.web.docker.local"), vec![v4(10, 0, 0, 7)]);
    assert!(t.lookup(".web.docker.local").is_empty());
}

#[test]
fn re_adding_is_idempotent() {
    let mut t = table_with_blacklist();
    t.add("web.docker.local".to_string(), v4(10, 0, 0, 5)).unwrap();
    t.add("web.docker.local".to_string(), v4(10, 0, 0, 5)).unwrap();
    assert_eq!(t.forward_records().len(), 1);
    assert_eq!(t.reverse_records().len(), 1);
}

#[test]
fn apex_is_the_domain() {
    let t = table_with_blacklist();
    assert_eq!(t.apex(), "docker.local");
}

#[test]
fn reverse_names_of_both_families() {
    assert_eq!(reverse_lookup_name(&v4(10, 0, 0, 5)), "5.0.0.10.in-addr.arpa");
    assert_eq!(reverse_lookup_name(&v4(192, 168, 1, 254)), "254.1.168.192.in-addr.arpa");
    let v6 = IpAddress::V6(0x2001_0db8_0000_0000_0000_0000_0000_0001);
    assert_eq!(
        reverse_lookup_name(&v6),
        "1.0.0.0.0.0.0.0.0.0.0.0.0.0.0.0.0.0.0.0.0.0.0.0.8.b.d.0.1.0.0.2.ip6.arpa"
    );
}

#[test]
fn cidr_contains_by_prefix() {
    let r = Cidr::new(v4(10, 1, 0, 0), 16).unwrap();
    assert!(r.contains(&v4(10, 1, 200, 3)));
    assert!(!r.contains(&v4(10, 2, 0, 0)));
    assert!(!r.contains(&IpAddress::V6(1)));
    let all = Cidr::new(v4(0, 0, 0, 0), 0).unwrap();
    assert!(all.contains(&v4(255, 255, 255, 255)));
    let host = Cidr::new(v4(10, 0, 0, 1), 32).unwrap();
    assert!(host.contains(&v4(10, 0, 0, 1)));
    assert!(!host.contains(&v4(10, 0, 0, 2)));
    assert!(Cidr::new(v4(10, 0, 0, 0), 33).is_none());
    assert!(Cidr::new(IpAddress::V6(0), 129).is_none());
    let v6 = Cidr::new(IpAddress::V6(0xfd00 << 112), 8).unwrap();
    assert!(v6.contains(&IpAddress::V6((0xfdab << 112) | 5)));
    assert!(is_blacklisted(&vec![r, host], &v4(10, 0, 0, 1)));
    assert!(!is_blacklisted(&vec![r], &v4(10, 0, 0, 1)));
}
