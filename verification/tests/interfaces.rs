use preboot_oxide::dhcp::{remove_sessions, Interface, Interfaces, Session, SessionMap};

fn three() -> Interfaces<&'static str, u32> {
    Interfaces::from(vec![
        Interface { iface: "eth0", client: 68, server: 67 },
        Interface { iface: "eth1", client: 168, server: 167 },
        Interface { iface: "br0", client: 268, server: 267 },
    ])
}

#[test]
fn sockets_stand_at_their_keys() {
    let interfaces = three();
    assert_eq!(interfaces.sockets(), vec![&67, &68, &167, &168, &267, &268]);
    let none: Interfaces<&str, u32> = Interfaces::from(vec![]);
    assert!(none.sockets().is_empty());
}

#[test]
fn keys_lead_to_interface_and_socket() {
    let interfaces = three();
    assert_eq!(interfaces.interface_from_event(0).unwrap().iface, "eth0");
    assert_eq!(interfaces.interface_from_event(1).unwrap().iface, "eth0");
    assert_eq!(interfaces.interface_from_event(2).unwrap().iface, "eth1");
    assert_eq!(interfaces.interface_from_event(5).unwrap().iface, "br0");
    assert!(interfaces.interface_from_event(6).is_none());
    assert_eq!(interfaces.socket_from_event(0), Some(&67));
    assert_eq!(interfaces.socket_from_event(1), Some(&68));
    assert_eq!(interfaces.socket_from_event(4), Some(&267));
    assert_eq!(interfaces.socket_from_event(5), Some(&268));
    assert_eq!(interfaces.socket_from_event(6), None);
    assert_eq!(interfaces.socket_from_event(usize::MAX), None);
    for (key, socket) in interfaces.sockets().into_iter().enumerate() {
        assert_eq!(interfaces.socket_from_event(key), Some(socket));
    }
}

#[test]
fn sessions_are_removed_by_transaction() {
    let mut sessions = SessionMap::new(10);
    for xid in 1..=4 {
        sessions.insert(xid, Session::fresh(xid as u64)).unwrap();
    }
    remove_sessions(&mut sessions, &vec![2, 4, 4, 9]);
    let mut keys = sessions.keys();
    keys.sort();
    assert_eq!(keys, vec![1, 3]);
    remove_sessions(&mut sessions, &vec![]);
    assert_eq!(sessions.keys().len(), 2);
}

#[test]
fn fresh_session_holds_its_start_only() {
    let session = Session::fresh(42);
    assert_eq!(session.start_time, 42);
    assert!(session.client_ip.is_none());
    assert!(session.gateway_ip.is_none());
    assert!(session.ciaddr.is_none());
    assert!(session.subnet.is_none());
    assert!(session.lease_time.is_none());
    assert!(session.discover_message.is_none());
}
