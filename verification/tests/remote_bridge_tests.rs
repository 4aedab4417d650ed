use azbridge::preamble::ConnectionMode;
use azbridge::remote_bridge::{dispatch_connection, round_robin, Dispatch, ForwarderKind, ForwarderTable};

fn table(entries: &[(&str, ForwarderKind)]) -> ForwarderTable<u32> {
    let mut t = ForwarderTable::new();
    for (i, (name, kind)) in entries.iter().enumerate() {
        t.insert(name.to_string(), *kind, i as u32);
    }
    t
}

#[test]
fn forwarder_map_lookup() {
    let t = table(&[("3306", ForwarderKind::Tcp), ("5000U", ForwarderKind::Udp)]);
    assert_eq!(t.position("3306"), Some(0));
    assert_eq!(t.position("5000U"), Some(1));
    assert_eq!(t.position("unknown"), None);
}

#[test]
fn insert_replaces_same_port_name() {
    let mut t = table(&[("a", ForwarderKind::Tcp), ("b", ForwarderKind::Udp)]);
    t.insert("a".into(), ForwarderKind::Udp, 9);
    assert_eq!(t.len(), 2);
    assert_eq!(t.position("a"), Some(0));
    assert_eq!(*t.target(0), 9);
    assert_eq!(t.kind_at(0), ForwarderKind::Udp);
}

#[test]
fn single_forwarder_numeric_fallback() {
    let t = table(&[("3306", ForwarderKind::Tcp)]);
    assert_eq!(dispatch_connection(&t, "29876", ConnectionMode::Stream), Dispatch::Forward(0));
    assert_eq!(dispatch_connection(&t, "-12", ConnectionMode::Stream), Dispatch::Forward(0));
}

#[test]
fn single_forwarder_non_numeric_no_fallback() {
    let t = table(&[("3306", ForwarderKind::Tcp)]);
    assert_eq!(
        dispatch_connection(&t, "not_a_number", ConnectionMode::Stream),
        Dispatch::Refuse(0)
    );
    assert_eq!(
        dispatch_connection(&t, "99999999999", ConnectionMode::Stream),
        Dispatch::Refuse(0)
    );
}

#[test]
fn empty_forwarder_map_no_match() {
    let t = table(&[]);
    assert!(t.is_empty());
    assert_eq!(dispatch_connection(&t, "anyport", ConnectionMode::Stream), Dispatch::Refuse(0));
    assert_eq!(dispatch_connection(&t, "80", ConnectionMode::Stream), Dispatch::Refuse(0));
}

#[test]
fn mode_checks() {
    let t = table(&[
        ("tcp", ForwarderKind::Tcp),
        ("udp", ForwarderKind::Udp),
        ("sock", ForwarderKind::Socket),
        ("web", ForwarderKind::Http),
    ]);
    assert_eq!(dispatch_connection(&t, "tcp", ConnectionMode::Stream), Dispatch::Forward(0));
    assert_eq!(dispatch_connection(&t, "tcp", ConnectionMode::Datagram), Dispatch::Refuse(255));
    assert_eq!(dispatch_connection(&t, "udp", ConnectionMode::Datagram), Dispatch::Forward(1));
    assert_eq!(dispatch_connection(&t, "udp", ConnectionMode::Stream), Dispatch::Refuse(1));
    assert_eq!(dispatch_connection(&t, "sock", ConnectionMode::Stream), Dispatch::Forward(2));
    assert_eq!(dispatch_connection(&t, "sock", ConnectionMode::Datagram), Dispatch::Refuse(255));
    assert_eq!(dispatch_connection(&t, "web", ConnectionMode::Stream), Dispatch::Refuse(0));
}

#[test]
fn multi_forwarder_no_fallback() {
    let t = table(&[("3306", ForwarderKind::Tcp), ("8080", ForwarderKind::Tcp)]);
    assert_eq!(dispatch_connection(&t, "29876", ConnectionMode::Stream), Dispatch::Refuse(0));
}

#[test]
fn http_forwarders_take_turns() {
    let picks: Vec<usize> = (0..5).map(|c| round_robin(c, 3)).collect();
    assert_eq!(picks, vec![0, 1, 2, 0, 1]);
}
