use dhcproto::v4::{
    Decodable, Decoder, DhcpOption, Encodable, Encoder, Flags, Message, MessageType, Opcode,
    OptionCode,
};
use preboot_oxide::conf::{Conf, ConfEntry, MatchEntry, MatchType};
use preboot_oxide::dhcp::{
    expired_sessions, handle_dhcp_message, process_message, reap_sessions, DhcpError,
    DhcpMsgWrapper, Session, SessionMap,
};
use preboot_oxide::net::Ipv4;

const XID: u32 = 0xAABB_CCDD;
const MAC: [u8; 6] = [0x00, 0x11, 0x22, 0x33, 0x44, 0x55];

fn addr<T: From<[u8; 4]>>(a: u8, b: u8, c: u8, d: u8) -> T {
    T::from([a, b, c, d])
}

fn encode(msg: &Message) -> Vec<u8> {
    let mut buf = Vec::new();
    msg.encode(&mut Encoder::new(&mut buf)).unwrap();
    buf
}

fn decode(bytes: &[u8]) -> Message {
    Message::decode(&mut Decoder::new(bytes)).unwrap()
}

fn base_message(xid: u32, mac: &[u8], kind: MessageType) -> Message {
    let mut msg = Message::default();
    msg.set_xid(xid).set_chaddr(mac);
    msg.opts_mut().insert(DhcpOption::MessageType(kind));
    msg
}

fn discover(xid: u32, mac: &[u8]) -> Message {
    let mut msg = base_message(xid, mac, MessageType::Discover);
    msg.opts_mut().insert(DhcpOption::ParameterRequestList(vec![
        OptionCode::SubnetMask,
        OptionCode::Router,
        OptionCode::BootfileName,
    ]));
    msg
}

fn offer(xid: u32, mac: &[u8]) -> Message {
    let mut msg = base_message(xid, mac, MessageType::Offer);
    msg.set_opcode(Opcode::BootReply)
        .set_yiaddr([10, 0, 0, 100]);
    msg.opts_mut()
        .insert(DhcpOption::SubnetMask(addr(255, 255, 255, 0)));
    msg.opts_mut().insert(DhcpOption::AddressLeaseTime(3600));
    msg
}

fn default_conf(boot_file: &str, server: Option<Ipv4>) -> Conf {
    Conf::new(
        Some(ConfEntry {
            boot_file: Some(boot_file.to_string()),
            boot_server_ipv4: server,
        }),
        None,
        None,
        None,
        500,
    )
}

fn rule(field: &str, value: &str, match_type: MatchType, regex: bool, boot_file: &str) -> MatchEntry {
    MatchEntry {
        fields_values: vec![(field.to_string(), value.to_string())],
        conf: ConfEntry {
            boot_file: Some(boot_file.to_string()),
            boot_server_ipv4: None,
        },
        match_type,
        regex,
    }
}

fn self_ip() -> Ipv4 {
    Ipv4::new(10, 0, 0, 2)
}

fn handle(sessions: &mut SessionMap, conf: &Conf, msg: &Message, now: u64) -> Result<Option<Message>, DhcpError> {
    handle_dhcp_message(sessions, conf, &encode(msg), self_ip(), now)
        .map(|reply| reply.map(|bytes| decode(&bytes)))
}

fn boot_file_of(msg: &Message) -> Option<Vec<u8>> {
    match msg.opts().get(OptionCode::BootfileName) {
        Some(DhcpOption::BootfileName(name)) => Some(name.clone()),
        _ => None,
    }
}

#[test]
fn happy_path_with_defaults_only() {
    let conf = default_conf("/pxelinux.0", Some(Ipv4::new(10, 0, 0, 2)));
    let mut sessions = SessionMap::new(500);

    assert_eq!(handle(&mut sessions, &conf, &discover(XID, &MAC), 0), Ok(None));
    assert!(sessions.get(&XID).is_some());

    let reply = handle(&mut sessions, &conf, &offer(XID, &MAC), 1)
        .unwrap()
        .unwrap();
    assert_eq!(reply.opts().msg_type(), Some(MessageType::Offer));
    assert_eq!(reply.xid(), XID);
    assert_eq!(reply.yiaddr().octets(), [10, 0, 0, 100]);
    assert_eq!(boot_file_of(&reply), Some(b"/pxelinux.0".to_vec()));
    assert_eq!(
        reply.opts().get(OptionCode::TFTPServerAddress),
        Some(&DhcpOption::TFTPServerAddress(addr(10, 0, 0, 2)))
    );
    assert_eq!(
        reply.opts().get(OptionCode::ServerIdentifier),
        Some(&DhcpOption::ServerIdentifier(addr(10, 0, 0, 2)))
    );
    assert_eq!(reply.siaddr().octets(), [10, 0, 0, 2]);
    // The codec hands the file field back with its terminator.
    assert_eq!(reply.fname(), Some(&b"/pxelinux.0\0"[..]));
    assert_eq!(
        reply.opts().get(OptionCode::SubnetMask),
        Some(&DhcpOption::SubnetMask(addr(255, 255, 255, 0)))
    );
    assert_eq!(
        reply.opts().get(OptionCode::AddressLeaseTime),
        Some(&DhcpOption::AddressLeaseTime(3600))
    );

    let request = base_message(XID, &MAC, MessageType::Request);
    let ack = handle(&mut sessions, &conf, &request, 2).unwrap().unwrap();
    assert_eq!(ack.opts().msg_type(), Some(MessageType::Ack));
    assert_eq!(ack.opcode(), Opcode::BootReply);
    assert!(ack.flags().broadcast());
    assert_eq!(ack.flags(), Flags::new(0).set_broadcast());
    assert_eq!(ack.xid(), XID);
    assert_eq!(ack.yiaddr().octets(), [10, 0, 0, 100]);
    assert_eq!(ack.giaddr().octets(), [0, 0, 0, 0]);
    assert_eq!(ack.ciaddr().octets(), [0, 0, 0, 0]);
    assert_eq!(ack.chaddr(), &MAC[..]);
    assert_eq!(boot_file_of(&ack), Some(b"/pxelinux.0".to_vec()));
    assert_eq!(
        ack.opts().get(OptionCode::SubnetMask),
        Some(&DhcpOption::SubnetMask(addr(255, 255, 255, 0)))
    );
    assert_eq!(
        ack.opts().get(OptionCode::AddressLeaseTime),
        Some(&DhcpOption::AddressLeaseTime(3600))
    );
    assert_eq!(
        ack.opts().get(OptionCode::ServerIdentifier),
        Some(&DhcpOption::ServerIdentifier(addr(10, 0, 0, 2)))
    );
    assert_eq!(ack.siaddr().octets(), [10, 0, 0, 2]);
}

#[test]
fn ack_falls_back_to_default_subnet_and_lease() {
    let conf = default_conf("/pxelinux.0", None);
    let mut sessions = SessionMap::new(500);
    assert_eq!(handle(&mut sessions, &conf, &discover(XID, &MAC), 0), Ok(None));

    let request = base_message(XID, &MAC, MessageType::Request);
    let ack = handle(&mut sessions, &conf, &request, 2).unwrap().unwrap();
    assert_eq!(ack.yiaddr().octets(), [0, 0, 0, 0]);
    assert_eq!(
        ack.opts().get(OptionCode::SubnetMask),
        Some(&DhcpOption::SubnetMask(addr(255, 255, 255, 0)))
    );
    assert_eq!(
        ack.opts().get(OptionCode::AddressLeaseTime),
        Some(&DhcpOption::AddressLeaseTime(60))
    );
    assert_eq!(
        ack.opts().get(OptionCode::TFTPServerAddress),
        Some(&DhcpOption::TFTPServerAddress(addr(10, 0, 0, 2)))
    );
}

#[test]
fn configured_server_is_named_in_place_of_the_interface() {
    let conf = default_conf("/pxelinux.0", Some(Ipv4::new(192, 168, 1, 9)));
    let mut sessions = SessionMap::new(500);
    assert_eq!(handle(&mut sessions, &conf, &discover(XID, &MAC), 0), Ok(None));
    let reply = handle(&mut sessions, &conf, &offer(XID, &MAC), 1)
        .unwrap()
        .unwrap();
    assert_eq!(
        reply.opts().get(OptionCode::TFTPServerAddress),
        Some(&DhcpOption::TFTPServerAddress(addr(192, 168, 1, 9)))
    );
    assert_eq!(
        reply.opts().get(OptionCode::ServerIdentifier),
        Some(&DhcpOption::ServerIdentifier(addr(192, 168, 1, 9)))
    );
    assert_eq!(reply.siaddr().octets(), [192, 168, 1, 9]);
}

#[test]
fn match_rule_by_mac_exact() {
    let mac = [0xAA, 0xBB, 0xCC, 0xDD, 0xEE, 0xFF];
    let conf = Conf::new(
        Some(ConfEntry {
            boot_file: None,
            boot_server_ipv4: Some(Ipv4::new(10, 0, 0, 2)),
        }),
        None,
        Some(vec![rule(
            "ClientMacAddress",
            "AA:BB:CC:DD:EE:FF",
            MatchType::All,
            false,
            "/ipxe.efi",
        )]),
        None,
        500,
    );
    let mut sessions = SessionMap::new(500);
    assert_eq!(handle(&mut sessions, &conf, &discover(XID, &mac), 0), Ok(None));
    let reply = handle(&mut sessions, &conf, &offer(XID, &mac), 1)
        .unwrap()
        .unwrap();
    assert_eq!(boot_file_of(&reply), Some(b"/ipxe.efi".to_vec()));

    // Another client is selected by no rule, and the default names no file.
    let other = 7;
    assert_eq!(handle(&mut sessions, &conf, &discover(other, &MAC), 0), Ok(None));
    assert_eq!(
        handle(&mut sessions, &conf, &offer(other, &MAC), 1),
        Err(DhcpError::NoBootFile)
    );
}

#[test]
fn match_rule_by_vendor_class_regex() {
    let conf = Conf::new(
        Some(ConfEntry {
            boot_file: Some("/default.0".to_string()),
            boot_server_ipv4: None,
        }),
        None,
        Some(vec![rule(
            "ClassIdentifier",
            "^PXEClient",
            MatchType::Any,
            true,
            "/bios.0",
        )]),
        None,
        500,
    );
    let mut sessions = SessionMap::new(500);
    let mut pxe = discover(XID, &MAC);
    pxe.opts_mut().insert(DhcpOption::ClassIdentifier(
        b"PXEClient:Arch:00000:UNDI:002001".to_vec(),
    ));
    assert_eq!(handle(&mut sessions, &conf, &pxe, 0), Ok(None));
    let reply = handle(&mut sessions, &conf, &offer(XID, &MAC), 1)
        .unwrap()
        .unwrap();
    assert_eq!(boot_file_of(&reply), Some(b"/bios.0".to_vec()));

    let mut other = discover(8, &MAC);
    other
        .opts_mut()
        .insert(DhcpOption::ClassIdentifier(b"MSFT 5.0".to_vec()));
    assert_eq!(handle(&mut sessions, &conf, &other, 0), Ok(None));
    let reply = handle(&mut sessions, &conf, &offer(8, &MAC), 1)
        .unwrap()
        .unwrap();
    assert_eq!(boot_file_of(&reply), Some(b"/default.0".to_vec()));
}

#[test]
fn quota_enforcement() {
    let conf = default_conf("/pxelinux.0", None);
    let mut sessions = SessionMap::new(2);
    assert_eq!(handle(&mut sessions, &conf, &discover(0xA, &MAC), 0), Ok(None));
    assert_eq!(handle(&mut sessions, &conf, &discover(0xB, &MAC), 0), Ok(None));
    assert_eq!(
        handle(&mut sessions, &conf, &discover(0xC, &MAC), 0),
        Err(DhcpError::Quota)
    );
    let mut keys = sessions.keys();
    keys.sort();
    assert_eq!(keys, vec![0xA, 0xB]);
    assert!(sessions.get(&0xC).is_none());
    assert_eq!(handle(&mut sessions, &conf, &offer(0xC, &MAC), 1), Ok(None));

    // A transaction that is tracked already is renewed in a full table.
    assert_eq!(handle(&mut sessions, &conf, &discover(0xB, &MAC), 5), Ok(None));
    assert_eq!(sessions.keys().len(), 2);
    assert_eq!(sessions.get(&0xB).unwrap().start_time, 0);
}

#[test]
fn decline_tears_down() {
    let conf = default_conf("/pxelinux.0", None);
    let mut sessions = SessionMap::new(500);
    assert_eq!(handle(&mut sessions, &conf, &discover(0x01, &MAC), 0), Ok(None));
    assert!(sessions.get(&0x01).is_some());

    let decline = base_message(0x01, &MAC, MessageType::Decline);
    assert_eq!(
        handle(&mut sessions, &conf, &decline, 1),
        Err(DhcpError::Declined)
    );
    assert!(sessions.get(&0x01).is_none());

    let request = base_message(0x01, &MAC, MessageType::Request);
    assert_eq!(handle(&mut sessions, &conf, &request, 2), Ok(None));
}

#[test]
fn ack_ends_the_session_silently() {
    let conf = default_conf("/pxelinux.0", None);
    let mut sessions = SessionMap::new(500);
    assert_eq!(handle(&mut sessions, &conf, &discover(0x01, &MAC), 0), Ok(None));
    let ack = base_message(0x01, &MAC, MessageType::Ack);
    assert_eq!(handle(&mut sessions, &conf, &ack, 1), Ok(None));
    assert!(sessions.get(&0x01).is_none());
}

#[test]
fn reaper_removes_aged_sessions() {
    let conf = default_conf("/pxelinux.0", None);
    let mut sessions = SessionMap::new(500);
    let t0 = 1_000;
    assert_eq!(handle(&mut sessions, &conf, &discover(XID, &MAC), t0), Ok(None));
    assert_eq!(handle(&mut sessions, &conf, &discover(9, &MAC), t0 + 40), Ok(None));

    assert_eq!(expired_sessions(&sessions, t0 + 30, 30), Vec::<u32>::new());
    assert_eq!(expired_sessions(&sessions, t0 + 45, 30), vec![XID]);
    assert_eq!(expired_sessions(&sessions, t0 - 1, 30), Vec::<u32>::new());

    assert_eq!(reap_sessions(&mut sessions, t0 + 45, 30), vec![XID]);
    assert!(sessions.get(&XID).is_none());
    assert!(sessions.get(&9).is_some());
    assert_eq!(handle(&mut sessions, &conf, &offer(XID, &MAC), t0 + 46), Ok(None));
    assert_eq!(reap_sessions(&mut sessions, t0 + 45, 30), Vec::<u32>::new());
}

#[test]
fn offer_without_session_changes_nothing() {
    let conf = default_conf("/pxelinux.0", None);
    let mut sessions = SessionMap::new(500);
    assert_eq!(handle(&mut sessions, &conf, &discover(1, &MAC), 0), Ok(None));
    assert_eq!(handle(&mut sessions, &conf, &offer(2, &MAC), 1), Ok(None));
    assert_eq!(sessions.keys(), vec![1]);
    assert!(sessions.get(&1).unwrap().client_ip.is_none());
}

#[test]
fn discover_without_boot_file_request_is_dropped() {
    let conf = default_conf("/pxelinux.0", None);
    let mut sessions = SessionMap::new(500);
    let mut plain = base_message(XID, &MAC, MessageType::Discover);
    assert_eq!(handle(&mut sessions, &conf, &plain, 0), Ok(None));
    plain.opts_mut().insert(DhcpOption::ParameterRequestList(vec![
        OptionCode::SubnetMask,
        OptionCode::Router,
    ]));
    assert_eq!(handle(&mut sessions, &conf, &plain, 0), Ok(None));
    assert!(sessions.keys().is_empty());
}

#[test]
fn discover_is_stored_as_received() {
    let conf = default_conf("/pxelinux.0", None);
    let mut sessions = SessionMap::new(500);
    let first = discover(XID, &MAC);
    assert_eq!(handle(&mut sessions, &conf, &first, 3), Ok(None));
    let session = sessions.get(&XID).unwrap();
    assert_eq!(session.discover_message, Some(decode(&encode(&first))));
    assert_eq!(session.start_time, 3);
    assert_eq!(session.client_ip, None);

    // A second discover of the transaction replaces the stored message only.
    let mut second = discover(XID, &MAC);
    second
        .opts_mut()
        .insert(DhcpOption::ClassIdentifier(b"PXEClient".to_vec()));
    assert_eq!(handle(&mut sessions, &conf, &second, 9), Ok(None));
    let session = sessions.get(&XID).unwrap();
    assert_eq!(session.discover_message, Some(decode(&encode(&second))));
    assert_eq!(session.start_time, 3);
}

#[test]
fn offer_is_recorded_on_the_session() {
    let conf = default_conf("/pxelinux.0", None);
    let mut sessions = SessionMap::new(500);
    assert_eq!(handle(&mut sessions, &conf, &discover(XID, &MAC), 0), Ok(None));
    let mut relayed = offer(XID, &MAC);
    relayed
        .set_giaddr([10, 0, 0, 1])
        .set_ciaddr([10, 0, 0, 50]);
    assert!(handle(&mut sessions, &conf, &relayed, 1).unwrap().is_some());
    let session = sessions.get(&XID).unwrap();
    assert_eq!(session.client_ip, Some(Ipv4::new(10, 0, 0, 100)));
    assert_eq!(session.gateway_ip, Some(Ipv4::new(10, 0, 0, 1)));
    assert_eq!(session.ciaddr, Some(Ipv4::new(10, 0, 0, 50)));
    assert_eq!(session.subnet, Some(Ipv4::new(255, 255, 255, 0)));
    assert_eq!(session.lease_time, Some(3600));
}

#[test]
fn offer_that_names_a_boot_file_is_not_admitted() {
    let conf = default_conf("/pxelinux.0", None);
    let mut sessions = SessionMap::new(500);
    assert_eq!(handle(&mut sessions, &conf, &discover(XID, &MAC), 0), Ok(None));
    let mut own = offer(XID, &MAC);
    own.opts_mut()
        .insert(DhcpOption::BootfileName(b"/pxelinux.0".to_vec()));
    assert!(!DhcpMsgWrapper::from_msg(own.clone()).should_handle());
    assert_eq!(handle(&mut sessions, &conf, &own, 1), Ok(None));
    assert!(sessions.get(&XID).unwrap().client_ip.is_none());
}

#[test]
fn other_message_types_are_dropped() {
    let conf = default_conf("/pxelinux.0", None);
    let mut sessions = SessionMap::new(500);
    assert_eq!(handle(&mut sessions, &conf, &discover(XID, &MAC), 0), Ok(None));
    for kind in [MessageType::Nak, MessageType::Release, MessageType::Inform] {
        let msg = base_message(XID, &MAC, kind);
        assert!(!DhcpMsgWrapper::from_msg(msg.clone()).should_handle());
        assert_eq!(handle(&mut sessions, &conf, &msg, 1), Ok(None));
    }
    assert!(sessions.get(&XID).is_some());
}

#[test]
fn errors_of_the_handler() {
    let conf = default_conf("/pxelinux.0", None);
    let mut sessions = SessionMap::new(500);
    assert_eq!(
        handle_dhcp_message(&mut sessions, &conf, &[1, 2, 3], self_ip(), 0),
        Err(DhcpError::Parse)
    );
    assert_eq!(
        handle_dhcp_message(&mut sessions, &conf, &[], self_ip(), 0),
        Ok(None)
    );

    let mut untyped = Message::default();
    untyped.set_xid(XID).set_chaddr(&MAC);
    assert_eq!(
        handle(&mut sessions, &conf, &untyped, 0),
        Err(DhcpError::NoMessageType)
    );

    let short = discover(XID, &[1, 2, 3]);
    assert_eq!(
        handle(&mut sessions, &conf, &short, 0),
        Err(DhcpError::BadMacAddress)
    );

    // A hardware address length beyond the field is refused, not sliced.
    let mut bytes = encode(&discover(XID, &MAC));
    bytes[2] = 200;
    assert_eq!(
        handle_dhcp_message(&mut sessions, &conf, &bytes, self_ip(), 0),
        Err(DhcpError::BadMacAddress)
    );
    assert!(sessions.keys().is_empty());

    let no_conf = Conf::new(None, None, None, None, 500);
    assert_eq!(handle(&mut sessions, &no_conf, &discover(XID, &MAC), 0), Ok(None));
    assert_eq!(
        handle(&mut sessions, &no_conf, &offer(XID, &MAC), 1),
        Err(DhcpError::NoConfig)
    );

    let long_name = "x".repeat(129);
    let too_long = default_conf(&long_name, None);
    assert_eq!(
        handle(&mut sessions, &too_long, &offer(XID, &MAC), 1),
        Err(DhcpError::BootFileTooLong)
    );
    let fits = default_conf(&"x".repeat(128), None);
    assert!(handle(&mut sessions, &fits, &offer(XID, &MAC), 1)
        .unwrap()
        .is_some());
}

#[test]
fn session_without_discover_gives_no_reply() {
    let conf = default_conf("/pxelinux.0", None);
    let mut sessions = SessionMap::new(500);
    sessions.insert(XID, Session::fresh(0)).unwrap();
    let incoming = DhcpMsgWrapper::from_msg(offer(XID, &MAC));
    assert_eq!(
        process_message(&mut sessions, &conf, incoming, self_ip(), 1),
        Err(DhcpError::NoDiscover)
    );
    assert_eq!(
        sessions.get(&XID).unwrap().client_ip,
        Some(Ipv4::new(10, 0, 0, 100))
    );
}

#[test]
fn long_datagram_is_cut_to_576_bytes() {
    let conf = default_conf("/pxelinux.0", None);
    let mut sessions = SessionMap::new(500);
    let mut bytes = encode(&discover(XID, &MAC));
    assert!(bytes.len() < 576);
    bytes.resize(576, 0);
    // Beyond the cut, bytes that would not decode as options.
    bytes.extend_from_slice(&[53, 200, 1]);
    assert_eq!(
        handle_dhcp_message(&mut sessions, &conf, &bytes, self_ip(), 0),
        Ok(None)
    );
    assert!(sessions.get(&XID).is_some());
}

fn without_file_name(msg: &Message) -> Message {
    let mut copy = msg.clone();
    copy.clear_fname();
    copy
}

fn assert_survives_the_wire(reply: &Message) {
    let bytes = DhcpMsgWrapper::from_msg(reply.clone()).to_bytes().unwrap();
    let back = DhcpMsgWrapper::from_buffer(&bytes).unwrap();
    // The codec hands the file field back with its terminator; everything
    // else comes back as it went, and encodes to the same bytes again.
    assert_eq!(without_file_name(&back.msg), without_file_name(reply));
    let mut terminated = reply.fname().unwrap().to_vec();
    terminated.push(0);
    assert_eq!(back.msg.fname(), Some(&terminated[..]));
    assert_eq!(back.to_bytes().unwrap(), bytes);
}

#[test]
fn replies_survive_the_wire() {
    let conf = default_conf("/pxelinux.0", Some(Ipv4::new(10, 0, 0, 2)));
    let mut sessions = SessionMap::new(500);
    assert_eq!(handle(&mut sessions, &conf, &discover(XID, &MAC), 0), Ok(None));

    let incoming = DhcpMsgWrapper::from_msg(offer(XID, &MAC));
    let reply = process_message(&mut sessions, &conf, incoming, self_ip(), 1)
        .unwrap()
        .unwrap();
    assert_eq!(reply.fname(), Some(&b"/pxelinux.0"[..]));
    assert_survives_the_wire(&reply);

    let incoming = DhcpMsgWrapper::from_msg(base_message(XID, &MAC, MessageType::Request));
    let ack = process_message(&mut sessions, &conf, incoming, self_ip(), 2)
        .unwrap()
        .unwrap();
    assert_survives_the_wire(&ack);
}

#[test]
fn messages_without_file_name_survive_the_wire() {
    for msg in [discover(XID, &MAC), offer(XID, &MAC)] {
        let bytes = DhcpMsgWrapper::from_msg(msg.clone()).to_bytes().unwrap();
        assert_eq!(DhcpMsgWrapper::from_buffer(&bytes).unwrap().msg, msg);
    }
}

#[test]
fn wrapper_reads_the_message() {
    let mut msg = offer(XID, &MAC);
    msg.opts_mut().insert(DhcpOption::ParameterRequestList(vec![
        OptionCode::BootfileName,
    ]));
    let wrapper = DhcpMsgWrapper::from_msg(msg);
    assert_eq!(wrapper.xid(), XID);
    assert_eq!(wrapper.yiaddr(), Ipv4::new(10, 0, 0, 100));
    assert_eq!(wrapper.subnet_mask(), Some(Ipv4::new(255, 255, 255, 0)));
    assert_eq!(wrapper.address_lease_time(), Some(3600));
    assert_eq!(wrapper.msg_type(), Some(2));
    assert!(wrapper.requests_boot_info());
    assert!(wrapper.should_handle());
    assert_eq!(wrapper.client_mac_address(), Some(MAC));
    assert_eq!(
        wrapper.client_mac_address_str(),
        Ok("00:11:22:33:44:55".to_string())
    );

    let bare = DhcpMsgWrapper::from_msg(Message::default());
    assert_eq!(bare.subnet_mask(), None);
    assert_eq!(bare.address_lease_time(), None);
    assert_eq!(bare.msg_type(), None);
    assert!(!bare.requests_boot_info());
    assert!(!bare.should_handle());
    assert_eq!(bare.client_mac_address(), None);
    assert_eq!(bare.client_mac_address_str(), Err(DhcpError::BadMacAddress));
}

#[test]
fn mac_address_text_is_upper_hex() {
    let msg = base_message(1, &[0xAA, 0x0B, 0xC0, 0x00, 0xFF, 0x09, 0x77], MessageType::Discover);
    assert_eq!(
        DhcpMsgWrapper::client_mac_address_str_from_msg(&msg),
        Ok("AA:0B:C0:00:FF:09".to_string())
    );
}

#[test]
fn wrapper_sets_sender_and_boot_info() {
    let mut wrapper = DhcpMsgWrapper::from_msg(offer(XID, &MAC));
    wrapper.set_src_ipv4(&Ipv4::new(10, 0, 0, 2));
    assert_eq!(wrapper.msg.siaddr().octets(), [10, 0, 0, 2]);
    assert_eq!(
        wrapper.msg.opts().get(OptionCode::ServerIdentifier),
        Some(&DhcpOption::ServerIdentifier(addr(10, 0, 0, 2)))
    );
    assert_eq!(wrapper.yiaddr(), Ipv4::new(10, 0, 0, 100));

    let before = wrapper.msg.clone();
    let no_file = ConfEntry {
        boot_file: None,
        boot_server_ipv4: Some(Ipv4::new(1, 2, 3, 4)),
    };
    assert_eq!(
        wrapper.set_boot_info_from_conf(&no_file, None),
        Err(DhcpError::NoBootFile)
    );
    let no_server = ConfEntry {
        boot_file: Some("/f".to_string()),
        boot_server_ipv4: None,
    };
    assert_eq!(
        wrapper.set_boot_info_from_conf(&no_server, None),
        Err(DhcpError::NoTftpServer)
    );
    assert_eq!(wrapper.msg, before);

    assert_eq!(
        wrapper.set_boot_info_from_conf(&no_server, Some(&Ipv4::new(10, 0, 0, 7))),
        Ok(())
    );
    assert_eq!(wrapper.msg.siaddr().octets(), [10, 0, 0, 7]);
    assert_eq!(wrapper.msg.fname(), Some(&b"/f"[..]));
    assert_eq!(boot_file_of(&wrapper.msg), Some(b"/f".to_vec()));
}
