//! The DHCP side of the boot helper: reading what a message asks for,
//! tracking transactions, and building the replies that carry the boot
//! information.

use crate::conf::{Conf, ConfEntry, ConfEntryView, ConfView};
use crate::doc::{render_message, rendered_doc};
use crate::net::Ipv4;
use crate::options::{options_admissible, options_admitted};
use crate::text::{hex_joined, join_hex};
use crate::util::QuotaMap;
use crate::wire::{
    blank_message, clone_message, decode_message, encode_message, insert_message_option,
    message_chaddr, message_header, message_option, message_status_text_len, message_view,
    set_message_chaddr, set_message_fname, set_message_header, status_text_len, wire_decode,
    wire_encode, DhcpOpt, Header, MessageView, OptView, CHADDR_LEN, FLAG_BROADCAST,
    MAX_FNAME_LEN, MAX_STATUS_TEXT_LEN, MSG_ACK, MSG_DECLINE, MSG_DISCOVER, MSG_OFFER,
    MSG_REQUEST, OPT_ADDRESS_LEASE_TIME, OPT_BOOTFILE_NAME, OPT_MESSAGE_TYPE,
    OPT_PARAMETER_REQUEST_LIST, OPT_SERVER_IDENTIFIER, OPT_SUBNET_MASK,
    OPT_TFTP_SERVER_ADDRESS, OP_BOOT_REPLY,
};
use dhcproto::v4::Message;
use vstd::prelude::*;
use vstd::slice::{slice_subrange, slice_to_vec};
use vstd::utf8::encode_utf8;

verus! {

/// Number of bytes of an Ethernet hardware address.
pub const MAC_LEN: usize = 6;

/// Why a message was not answered.
#[derive(Clone, Copy, Debug, PartialEq, Eq, Structural)]
pub enum DhcpError {
    /// The bytes are no DHCP message.
    Parse,
    /// The message carries no message type.
    NoMessageType,
    /// The hardware address is shorter than six bytes, or its length runs
    /// past the address field.
    BadMacAddress,
    /// The session table is full.
    Quota,
    /// The session of an offer holds no discover message.
    NoDiscover,
    /// The message could not be rendered to a document.
    Render,
    /// No rule selects the client and there is no default.
    NoConfig,
    /// The configuration for the client names no boot file.
    NoBootFile,
    /// The configuration for the client names no TFTP server and the
    /// interface has no address.
    NoTftpServer,
    /// The boot file name does not fit the header's file field.
    BootFileTooLong,
    /// The client declined what it was offered.
    Declined,
    /// The reply could not be encoded.
    Encode,
}

/// A decoded DHCP message.
pub struct DhcpMsgWrapper {
    pub msg: Message,
}

impl View for DhcpMsgWrapper {
    type V = MessageView;

    open spec fn view(&self) -> MessageView {
        message_view(self.msg)
    }
}

/// The hardware address of the client that a message is about: the first six
/// bytes of the address, where it has as many, fits its field, and is as
/// long as the header says.
pub open spec fn client_mac(v: MessageView) -> Option<Seq<u8>> {
    if MAC_LEN <= v.header.hlen <= CHADDR_LEN && v.chaddr.len() == v.header.hlen {
        Some(v.chaddr.take(MAC_LEN as int))
    } else {
        None
    }
}

/// The message that a datagram decodes to: what the codec makes of it, as
/// long as the walk over its options admits it.
pub open spec fn decoded(bytes: Seq<u8>) -> Option<Message> {
    if options_admitted(bytes) {
        wire_decode(bytes)
    } else {
        None
    }
}

/// The bytes that a message encodes to: what the codec makes of it, as long
/// as the text of its status code option, if it has one, is short enough to
/// be written.
pub open spec fn encoded(m: Message) -> Option<Seq<u8>> {
    if status_text_len(m) < MAX_STATUS_TEXT_LEN {
        wire_encode(m)
    } else {
        None
    }
}

impl DhcpMsgWrapper {
    /// Decodes a datagram. One whose options the codec is not prepared for
    /// is refused like one that it cannot decode.
    pub fn from_buffer(buffer: &[u8]) -> (r: Result<Self, DhcpError>)
        ensures
            match r {
                Ok(w) => decoded(buffer@) == Some(w.msg),
                Err(e) => e == DhcpError::Parse && decoded(buffer@) is None,
            },
    {
        if !options_admissible(buffer) {
            return Err(DhcpError::Parse);
        }
        match decode_message(buffer) {
            Ok(msg) => Ok(Self { msg }),
            Err(_) => Err(DhcpError::Parse),
        }
    }

    /// Wraps a message of the wire codec.
    pub fn from_msg(msg: Message) -> (r: Self)
        ensures
            r.msg == msg,
    {
        Self { msg }
    }

    /// Encodes the message for the wire. One with a status code option whose
    /// text the codec cannot write is refused like one that it cannot encode.
    pub fn to_bytes(&self) -> (r: Result<Vec<u8>, DhcpError>)
        ensures
            match r {
                Ok(bytes) => encoded(self.msg) == Some(bytes@),
                Err(e) => e == DhcpError::Encode && encoded(self.msg) is None,
            },
    {
        if message_status_text_len(&self.msg) >= MAX_STATUS_TEXT_LEN {
            return Err(DhcpError::Encode);
        }
        match encode_message(&self.msg) {
            Ok(bytes) => Ok(bytes),
            Err(_) => Err(DhcpError::Encode),
        }
    }

    /// The transaction id.
    pub fn xid(&self) -> (r: u32)
        ensures
            r == self@.header.xid,
    {
        message_header(&self.msg).xid
    }

    /// The address that the server offers the client.
    pub fn yiaddr(&self) -> (r: Ipv4)
        ensures
            r == self@.header.yiaddr,
    {
        message_header(&self.msg).yiaddr
    }

    /// The subnet mask option, if the message has one.
    pub fn subnet_mask(&self) -> (r: Option<Ipv4>)
        ensures
            r == self@.subnet_mask(),
    {
        match message_option(&self.msg, OPT_SUBNET_MASK) {
            Some(DhcpOpt::SubnetMask(ip)) => Some(ip),
            _ => None,
        }
    }

    /// The address lease time option, if the message has one.
    pub fn address_lease_time(&self) -> (r: Option<u32>)
        ensures
            r == self@.address_lease_time(),
    {
        match message_option(&self.msg, OPT_ADDRESS_LEASE_TIME) {
            Some(DhcpOpt::AddressLeaseTime(t)) => Some(t),
            _ => None,
        }
    }

    /// The message type option, if the message has one.
    pub fn msg_type(&self) -> (r: Option<u8>)
        ensures
            r == self@.msg_type(),
    {
        match message_option(&self.msg, OPT_MESSAGE_TYPE) {
            Some(DhcpOpt::MessageType(t)) => Some(t),
            _ => None,
        }
    }

    /// Whether the client asks for a boot file name in its parameter request
    /// list.
    pub fn requests_boot_info(&self) -> (r: bool)
        ensures
            r == self@.requests_boot_info(),
    {
        match message_option(&self.msg, OPT_PARAMETER_REQUEST_LIST) {
            Some(DhcpOpt::ParameterRequestList(params)) => {
                let mut i: usize = 0;
                while i < params.len()
                    invariant
                        i <= params@.len(),
                        self@.opts.contains_key(OPT_PARAMETER_REQUEST_LIST),
                        self@.opts[OPT_PARAMETER_REQUEST_LIST] == OptView::ParameterRequestList(
                            params@,
                        ),
                        forall|j: int| 0 <= j < i ==> params@[j] != OPT_BOOTFILE_NAME,
                    decreases params@.len() - i,
                {
                    if params[i] == OPT_BOOTFILE_NAME {
                        proof {
                            assert(params@[i as int] == OPT_BOOTFILE_NAME);
                        }
                        return true;
                    }
                    i = i + 1;
                }
                false
            },
            _ => false,
        }
    }

    /// Whether the message passes the admission filter.
    pub fn should_handle(&self) -> (r: bool)
        ensures
            r == self@.should_handle(),
    {
        let has_boot_file_name = message_option(&self.msg, OPT_BOOTFILE_NAME).is_some();
        match self.msg_type() {
            Some(t) => (t == MSG_OFFER && !has_boot_file_name) || t == MSG_REQUEST || t == MSG_ACK
                || t == MSG_DISCOVER,
            None => false,
        }
    }

    /// The hardware address of the client.
    pub fn client_mac_address(&self) -> (r: Option<[u8; 6]>)
        ensures
            match r {
                Some(mac) => client_mac(self@) == Some(mac@),
                None => client_mac(self@) is None,
            },
    {
        Self::client_mac_address_from_msg(&self.msg)
    }

    /// The hardware address of the client that a message is about.
    pub fn client_mac_address_from_msg(msg: &Message) -> (r: Option<[u8; 6]>)
        ensures
            match r {
                Some(mac) => client_mac(message_view(*msg)) == Some(mac@),
                None => client_mac(message_view(*msg)) is None,
            },
    {
        let hlen = message_header(msg).hlen;
        if (hlen as usize) < MAC_LEN || (hlen as usize) > CHADDR_LEN {
            return None;
        }
        let chaddr = message_chaddr(msg);
        let mac = [chaddr[0], chaddr[1], chaddr[2], chaddr[3], chaddr[4], chaddr[5]];
        proof {
            assert(mac@ =~= message_view(*msg).chaddr.take(MAC_LEN as int));
        }
        Some(mac)
    }

    /// The hardware address of the client, in colon-separated upper-case
    /// hexadecimal.
    pub fn client_mac_address_str(&self) -> (r: Result<String, DhcpError>)
        ensures
            match r {
                Ok(s) => client_mac(self@) matches Some(mac) && s@ == hex_joined(mac),
                Err(e) => e == DhcpError::BadMacAddress && client_mac(self@) is None,
            },
    {
        Self::client_mac_address_str_from_msg(&self.msg)
    }

    /// The hardware address of the client that a message is about, in
    /// colon-separated upper-case hexadecimal.
    pub fn client_mac_address_str_from_msg(msg: &Message) -> (r: Result<String, DhcpError>)
        ensures
            match r {
                Ok(s) => client_mac(message_view(*msg)) matches Some(mac) && s@ == hex_joined(
                    mac,
                ),
                Err(e) => e == DhcpError::BadMacAddress && client_mac(message_view(*msg)) is None,
            },
    {
        match Self::client_mac_address_from_msg(msg) {
            Some(mac) => Ok(join_hex(mac.as_slice())),
            None => Err(DhcpError::BadMacAddress),
        }
    }
}

/// A message that names its sender: the address is the server identifier and
/// the server address of the header.
pub open spec fn with_src_ipv4(v: MessageView, ip: Ipv4) -> MessageView {
    MessageView {
        header: Header { siaddr: ip, ..v.header },
        opts: v.opts.insert(OPT_SERVER_IDENTIFIER, OptView::ServerIdentifier(ip)),
        ..v
    }
}

/// The TFTP server that a client is sent to: the configured one, else the
/// interface's own address.
pub open spec fn boot_server(conf: ConfEntryView, my_ipv4: Option<Ipv4>) -> Option<Ipv4> {
    if conf.boot_server_ipv4 is Some {
        conf.boot_server_ipv4
    } else {
        my_ipv4
    }
}

/// The bytes of the boot file name that a configuration entry holds.
pub open spec fn boot_file_bytes(conf: ConfEntryView) -> Seq<u8>
    recommends
        conf.boot_file is Some,
{
    encode_utf8(conf.boot_file->0)
}

/// Why boot information cannot be taken from a configuration entry, if it
/// cannot.
pub open spec fn boot_info_error(conf: ConfEntryView, my_ipv4: Option<Ipv4>) -> Option<DhcpError> {
    if conf.boot_file is None {
        Some(DhcpError::NoBootFile)
    } else if boot_server(conf, my_ipv4) is None {
        Some(DhcpError::NoTftpServer)
    } else if boot_file_bytes(conf).len() > MAX_FNAME_LEN {
        Some(DhcpError::BootFileTooLong)
    } else {
        None
    }
}

/// A message with the boot information put in: the boot file name and the
/// TFTP server as options, the server as server identifier too, and both in
/// the header.
pub open spec fn with_boot_info(v: MessageView, file: Seq<u8>, server: Ipv4) -> MessageView {
    MessageView {
        header: Header { siaddr: server, ..v.header },
        fname: Some(file),
        opts: v.opts.insert(OPT_BOOTFILE_NAME, OptView::BootfileName(file)).insert(
            OPT_TFTP_SERVER_ADDRESS,
            OptView::TftpServerAddress(server),
        ).insert(OPT_SERVER_IDENTIFIER, OptView::ServerIdentifier(server)),
        ..v
    }
}

/// A reply with the boot information for a client put in, or the reason why
/// there is none to put in.
pub open spec fn augmented(base: MessageView, conf: ConfEntryView, self_ipv4: Ipv4) -> Result<
    Option<MessageView>,
    DhcpError,
> {
    match boot_info_error(conf, Some(self_ipv4)) {
        Some(e) => Err(e),
        None => Ok(
            Some(
                with_boot_info(
                    with_src_ipv4(base, self_ipv4),
                    boot_file_bytes(conf),
                    boot_server(conf, Some(self_ipv4))->0,
                ),
            ),
        ),
    }
}

impl DhcpMsgWrapper {
    /// Names the sender: the address becomes the server identifier and the
    /// server address of the header.
    pub fn set_src_ipv4(&mut self, src_ipv4: &Ipv4)
        ensures
            final(self)@ == with_src_ipv4(old(self)@, *src_ipv4),
    {
        insert_message_option(&mut self.msg, DhcpOpt::ServerIdentifier(*src_ipv4));
        let h = message_header(&self.msg);
        set_message_header(&mut self.msg, Header { siaddr: *src_ipv4, ..h });
    }

    /// Puts the boot information of a configuration entry into the message.
    /// Without a boot file, without any server address, or with a boot file
    /// name too long for the header, the message stays as it is.
    pub fn set_boot_info_from_conf(&mut self, conf: &ConfEntry, my_ipv4: Option<&Ipv4>) -> (r:
        Result<(), DhcpError>)
        ensures
            match boot_info_error(conf@, opt_ipv4(my_ipv4)) {
                Some(e) => r == Err::<(), DhcpError>(e) && final(self)@ == old(self)@,
                None => r.is_ok() && final(self)@ == with_boot_info(
                    old(self)@,
                    boot_file_bytes(conf@),
                    boot_server(conf@, opt_ipv4(my_ipv4))->0,
                ),
            },
    {
        let boot_filename = match &conf.boot_file {
            Some(f) => f,
            None => {
                return Err(DhcpError::NoBootFile);
            },
        };
        let server = match conf.boot_server_ipv4 {
            Some(ip) => ip,
            None => match my_ipv4 {
                Some(ip) => *ip,
                None => {
                    return Err(DhcpError::NoTftpServer);
                },
            },
        };
        let file = boot_filename.as_str().as_bytes();
        if file.len() > MAX_FNAME_LEN {
            return Err(DhcpError::BootFileTooLong);
        }
        insert_message_option(&mut self.msg, DhcpOpt::BootfileName(slice_to_vec(file)));
        insert_message_option(&mut self.msg, DhcpOpt::TftpServerAddress(server));
        insert_message_option(&mut self.msg, DhcpOpt::ServerIdentifier(server));
        let h = message_header(&self.msg);
        set_message_header(&mut self.msg, Header { siaddr: server, ..h });
        set_message_fname(&mut self.msg, file);
        Ok(())
    }
}

/// The address behind an optional reference.
pub open spec fn opt_ipv4(ip: Option<&Ipv4>) -> Option<Ipv4> {
    match ip {
        Some(x) => Some(*x),
        None => None,
    }
}

/// Subnet mask of an acknowledgement where the offer named none.
pub open spec fn default_subnet_mask() -> Ipv4 {
    Ipv4::spec_new(255, 255, 255, 0)
}

/// Lease time of an acknowledgement where the offer named none.
pub const DEFAULT_LEASE_TIME: u32 = 60;

/// What is known of one transaction in flight.
pub struct Session {
    /// The address that the authoritative server offered.
    pub client_ip: Option<Ipv4>,
    pub gateway_ip: Option<Ipv4>,
    pub ciaddr: Option<Ipv4>,
    /// The subnet mask that the authoritative server offered.
    pub subnet: Option<Ipv4>,
    /// The lease time that the authoritative server offered.
    pub lease_time: Option<u32>,
    /// When the session was created, in the unit of the caller's clock.
    pub start_time: u64,
    /// The client's latest discover message.
    pub discover_message: Option<Message>,
}

/// The sessions in flight, by transaction id.
pub type SessionMap = QuotaMap<Session>;

impl Session {
    /// A session that holds nothing but the time of its creation.
    pub open spec fn spec_fresh(now: u64) -> Session {
        Session {
            client_ip: None,
            gateway_ip: None,
            ciaddr: None,
            subnet: None,
            lease_time: None,
            start_time: now,
            discover_message: None,
        }
    }

    /// A session that holds nothing but the time of its creation.
    #[verifier::when_used_as_spec(spec_fresh)]
    pub fn fresh(now: u64) -> (r: Session)
        ensures
            r == Session::spec_fresh(now),
    {
        Session {
            client_ip: None,
            gateway_ip: None,
            ciaddr: None,
            subnet: None,
            lease_time: None,
            start_time: now,
            discover_message: None,
        }
    }
}

/// The session of a transaction once a discover message has arrived: the
/// one there was, or a fresh one, holding that message.
pub open spec fn discover_session(prev: Option<Session>, msg: Message, now: u64) -> Session {
    match prev {
        Some(s) => Session { discover_message: Some(msg), ..s },
        None => Session { discover_message: Some(msg), ..Session::spec_fresh(now) },
    }
}

/// The session of a transaction once the authoritative server's offer has
/// arrived: it records what was offered.
pub open spec fn offer_session(s: Session, offer: MessageView) -> Session {
    Session {
        client_ip: Some(offer.header.yiaddr),
        gateway_ip: Some(offer.header.giaddr),
        ciaddr: Some(offer.header.ciaddr),
        subnet: offer.subnet_mask(),
        lease_time: offer.address_lease_time(),
        ..s
    }
}

/// The address that an optional one stands for: itself, or `0.0.0.0`.
pub open spec fn or_unspecified(ip: Option<Ipv4>) -> Ipv4 {
    match ip {
        Some(x) => x,
        None => Ipv4::spec_unspecified(),
    }
}

/// The acknowledgement for a request, before the boot information is put
/// in: a broadcast boot reply for the client's transaction, with the
/// addresses, the subnet mask and the lease time that the session recorded.
pub open spec fn ack_view(s: Session, mac: Seq<u8>, xid: u32) -> MessageView {
    MessageView {
        header: Header {
            opcode: OP_BOOT_REPLY,
            htype: 1,
            hlen: mac.len() as u8,
            hops: 0,
            xid,
            secs: 0,
            flags: FLAG_BROADCAST,
            ciaddr: or_unspecified(s.ciaddr),
            yiaddr: or_unspecified(s.client_ip),
            siaddr: Ipv4::spec_unspecified(),
            giaddr: or_unspecified(s.gateway_ip),
        },
        chaddr: mac,
        sname: None,
        fname: None,
        opts: Map::<u8, OptView>::empty().insert(
            OPT_MESSAGE_TYPE,
            OptView::MessageType(MSG_ACK),
        ).insert(
            OPT_SUBNET_MASK,
            OptView::SubnetMask(
                match s.subnet {
                    Some(m) => m,
                    None => default_subnet_mask(),
                },
            ),
        ).insert(
            OPT_ADDRESS_LEASE_TIME,
            OptView::AddressLeaseTime(
                match s.lease_time {
                    Some(t) => t,
                    None => DEFAULT_LEASE_TIME,
                },
            ),
        ),
    }
}

/// What handling a message answers: a reply to send, nothing, or an error.
pub type Answer = Result<Option<MessageView>, DhcpError>;

/// Whether the state machine takes a message up: what passes the admission
/// filter, and a decline, which ends a session.
pub open spec fn admitted(v: MessageView) -> bool {
    v.should_handle() || v.has_msg_type(MSG_DECLINE)
}

/// A discover message: where the client asks for a boot file name, its
/// session is created or renewed, unless the table is full. Nothing is sent.
pub open spec fn on_discover(
    table: Map<u32, Session>,
    quota: nat,
    msg: Message,
    now: u64,
) -> (Map<u32, Session>, Answer) {
    let v = message_view(msg);
    let xid = v.header.xid;
    if !v.requests_boot_info() {
        (table, Ok(None))
    } else if !table.contains_key(xid) && table.len() >= quota {
        (table, Err(DhcpError::Quota))
    } else {
        (
            table.insert(
                xid,
                discover_session(
                    if table.contains_key(xid) {
                        Some(table[xid])
                    } else {
                        None
                    },
                    msg,
                    now,
                ),
            ),
            Ok(None),
        )
    }
}

/// The reply for a client whose document is at hand: the base message with
/// the boot information that the configuration resolves for the client.
pub open spec fn reply_for(
    conf: ConfView,
    described: Message,
    base: MessageView,
    self_ipv4: Ipv4,
) -> Answer {
    match rendered_doc(described) {
        None => Err(DhcpError::Render),
        Some(doc) => match conf.resolve(doc) {
            None => Err(DhcpError::NoConfig),
            Some(cfg) => augmented(base, cfg, self_ipv4),
        },
    }
}

/// An offer of the authoritative server: where the transaction is tracked,
/// the session records what was offered, and the offer is repeated with the
/// boot information for the client that the stored discover describes.
pub open spec fn on_offer(
    table: Map<u32, Session>,
    conf: ConfView,
    msg: Message,
    self_ipv4: Ipv4,
) -> (Map<u32, Session>, Answer) {
    let v = message_view(msg);
    let xid = v.header.xid;
    if !table.contains_key(xid) {
        (table, Ok(None))
    } else {
        let session = offer_session(table[xid], v);
        (
            table.insert(xid, session),
            match session.discover_message {
                None => Err(DhcpError::NoDiscover),
                Some(discover) => reply_for(conf, discover, v, self_ipv4),
            },
        )
    }
}

/// A request of the client: where the transaction is tracked, it is
/// acknowledged with what the session recorded and the boot information for
/// the client that the request describes. A request without a hardware
/// address of six bytes cannot be acknowledged.
pub open spec fn on_request(
    table: Map<u32, Session>,
    conf: ConfView,
    msg: Message,
    self_ipv4: Ipv4,
) -> (Map<u32, Session>, Answer) {
    let v = message_view(msg);
    let xid = v.header.xid;
    if !table.contains_key(xid) {
        (table, Ok(None))
    } else {
        match client_mac(v) {
            Some(mac) => (table, reply_for(conf, msg, ack_view(table[xid], mac, xid), self_ipv4)),
            None => (table, Err(DhcpError::BadMacAddress)),
        }
    }
}

/// The state machine: the session table after a message, and the answer.
pub open spec fn process(
    table: Map<u32, Session>,
    quota: nat,
    conf: ConfView,
    msg: Message,
    self_ipv4: Ipv4,
    now: u64,
) -> (Map<u32, Session>, Answer) {
    let v = message_view(msg);
    let xid = v.header.xid;
    if v.msg_type() is None {
        (table, Err(DhcpError::NoMessageType))
    } else if client_mac(v) is None {
        (table, Err(DhcpError::BadMacAddress))
    } else if !admitted(v) {
        (table, Ok(None))
    } else if v.has_msg_type(MSG_DISCOVER) {
        on_discover(table, quota, msg, now)
    } else if v.has_msg_type(MSG_OFFER) {
        on_offer(table, conf, msg, self_ipv4)
    } else if v.has_msg_type(MSG_REQUEST) {
        on_request(table, conf, msg, self_ipv4)
    } else if v.has_msg_type(MSG_DECLINE) {
        (table.remove(xid), Err(DhcpError::Declined))
    } else {
        (table.remove(xid), Ok(None))
    }
}

/// Whether what was handed out is what the state machine answers.
pub open spec fn answers(r: Result<Option<Message>, DhcpError>, answer: Answer) -> bool {
    match answer {
        Ok(Some(v)) => r matches Ok(Some(m)) && message_view(m) == v,
        Ok(None) => r matches Ok(None),
        Err(e) => r == Err::<Option<Message>, DhcpError>(e),
    }
}

/// Builds the reply for a client: the base message with the boot
/// information that the configuration resolves for the client that
/// `described` describes.
pub fn build_reply(
    config: &Conf,
    described: &Message,
    base: DhcpMsgWrapper,
    self_ipv4: Ipv4,
) -> (r: Result<Option<Message>, DhcpError>)
    ensures
        answers(r, reply_for(config@, *described, base@, self_ipv4)),
{
    let doc = match render_message(described) {
        Ok(d) => d,
        Err(_) => {
            return Err(DhcpError::Render);
        },
    };
    let cfg = match config.get_from_doc(doc) {
        Ok(Some(c)) => c,
        _ => {
            return Err(DhcpError::NoConfig);
        },
    };
    let mut response = base;
    response.set_src_ipv4(&self_ipv4);
    match response.set_boot_info_from_conf(&cfg, Some(&self_ipv4)) {
        Ok(()) => Ok(Some(response.msg)),
        Err(e) => Err(e),
    }
}

/// Builds the acknowledgement for a request, before the boot information is
/// put in.
pub fn build_ack(session: &Session, mac: &[u8; 6], xid: u32) -> (r: Message)
    ensures
        message_view(r) == ack_view(*session, mac@, xid),
{
    let mut ack = blank_message();
    insert_message_option(&mut ack, DhcpOpt::MessageType(MSG_ACK));
    let subnet = match session.subnet {
        Some(m) => m,
        None => Ipv4::new(255, 255, 255, 0),
    };
    insert_message_option(&mut ack, DhcpOpt::SubnetMask(subnet));
    let lease_time = match session.lease_time {
        Some(t) => t,
        None => DEFAULT_LEASE_TIME,
    };
    insert_message_option(&mut ack, DhcpOpt::AddressLeaseTime(lease_time));
    let h = message_header(&ack);
    set_message_header(
        &mut ack,
        Header {
            opcode: OP_BOOT_REPLY,
            xid,
            flags: FLAG_BROADCAST,
            yiaddr: match session.client_ip {
                Some(ip) => ip,
                None => Ipv4::unspecified(),
            },
            giaddr: match session.gateway_ip {
                Some(ip) => ip,
                None => Ipv4::unspecified(),
            },
            ciaddr: match session.ciaddr {
                Some(ip) => ip,
                None => Ipv4::unspecified(),
            },
            ..h
        },
    );
    set_message_chaddr(&mut ack, mac.as_slice());
    ack
}

/// Handles a discover message.
pub fn handle_discover(sessions: &mut SessionMap, incoming: DhcpMsgWrapper, now: u64) -> (r:
    Result<Option<Message>, DhcpError>)
    requires
        old(sessions).wf(),
    ensures
        final(sessions).wf(),
        final(sessions).quota() == old(sessions).quota(),
        final(sessions)@ == on_discover(old(sessions)@, old(sessions).quota(), incoming.msg, now).0,
        answers(r, on_discover(old(sessions)@, old(sessions).quota(), incoming.msg, now).1),
{
    if !incoming.requests_boot_info() {
        return Ok(None);
    }
    let xid = incoming.xid();
    proof {
        sessions.lemma_within_quota();
    }
    let prev = sessions.remove(&xid);
    let session = match prev {
        Some(s) => Session { discover_message: Some(incoming.msg), ..s },
        None => Session { discover_message: Some(incoming.msg), ..Session::fresh(now) },
    };
    proof {
        if old(sessions)@.contains_key(xid) {
            old(sessions)@.lemma_remove_key_len(xid);
            assert(old(sessions)@.remove(xid).insert(xid, session) =~= old(sessions)@.insert(
                xid,
                session,
            ));
        } else {
            assert(old(sessions)@.remove(xid) =~= old(sessions)@);
        }
    }
    match sessions.insert(xid, session) {
        Ok(()) => Ok(None),
        Err(_) => Err(DhcpError::Quota),
    }
}

/// Handles an offer of the authoritative server.
pub fn handle_offer(
    sessions: &mut SessionMap,
    config: &Conf,
    incoming: DhcpMsgWrapper,
    self_ipv4: Ipv4,
) -> (r: Result<Option<Message>, DhcpError>)
    requires
        old(sessions).wf(),
    ensures
        final(sessions).wf(),
        final(sessions).quota() == old(sessions).quota(),
        final(sessions)@ == on_offer(old(sessions)@, config@, incoming.msg, self_ipv4).0,
        answers(r, on_offer(old(sessions)@, config@, incoming.msg, self_ipv4).1),
{
    let xid = incoming.xid();
    let h = message_header(&incoming.msg);
    let subnet = incoming.subnet_mask();
    let lease_time = incoming.address_lease_time();
    let discover = match sessions.get_mut(&xid) {
        None => {
            return Ok(None);
        },
        Some(session) => {
            session.client_ip = Some(h.yiaddr);
            session.subnet = subnet;
            session.lease_time = lease_time;
            session.gateway_ip = Some(h.giaddr);
            session.ciaddr = Some(h.ciaddr);
            match &session.discover_message {
                Some(d) => Some(clone_message(d)),
                None => None,
            }
        },
    };
    match discover {
        Some(d) => build_reply(config, &d, incoming, self_ipv4),
        None => Err(DhcpError::NoDiscover),
    }
}

/// Handles a request of the client.
pub fn handle_request(
    sessions: &SessionMap,
    config: &Conf,
    incoming: DhcpMsgWrapper,
    self_ipv4: Ipv4,
) -> (r: Result<Option<Message>, DhcpError>)
    ensures
        answers(r, on_request(sessions@, config@, incoming.msg, self_ipv4).1),
{
    let xid = incoming.xid();
    let session = match sessions.get(&xid) {
        Some(s) => s,
        None => {
            return Ok(None);
        },
    };
    let mac = match incoming.client_mac_address() {
        Some(m) => m,
        None => {
            return Err(DhcpError::BadMacAddress);
        },
    };
    let ack = build_ack(session, &mac, xid);
    build_reply(config, &incoming.msg, DhcpMsgWrapper::from_msg(ack), self_ipv4)
}

/// Runs the state machine on one decoded message: updates the session table
/// and hands out the reply to broadcast, if there is one.
pub fn process_message(
    sessions: &mut SessionMap,
    config: &Conf,
    incoming: DhcpMsgWrapper,
    self_ipv4: Ipv4,
    now: u64,
) -> (r: Result<Option<Message>, DhcpError>)
    requires
        old(sessions).wf(),
    ensures
        final(sessions).wf(),
        final(sessions).quota() == old(sessions).quota(),
        final(sessions)@ == process(
            old(sessions)@,
            old(sessions).quota(),
            config@,
            incoming.msg,
            self_ipv4,
            now,
        ).0,
        answers(
            r,
            process(old(sessions)@, old(sessions).quota(), config@, incoming.msg, self_ipv4, now).1,
        ),
{
    let msg_type = match incoming.msg_type() {
        Some(t) => t,
        None => {
            return Err(DhcpError::NoMessageType);
        },
    };
    if incoming.client_mac_address().is_none() {
        return Err(DhcpError::BadMacAddress);
    }
    if !incoming.should_handle() && msg_type != MSG_DECLINE {
        return Ok(None);
    }
    if msg_type == MSG_DISCOVER {
        handle_discover(sessions, incoming, now)
    } else if msg_type == MSG_OFFER {
        handle_offer(sessions, config, incoming, self_ipv4)
    } else if msg_type == MSG_REQUEST {
        handle_request(sessions, config, incoming, self_ipv4)
    } else {
        let xid = incoming.xid();
        sessions.remove(&xid);
        if msg_type == MSG_DECLINE {
            Err(DhcpError::Declined)
        } else {
            Ok(None)
        }
    }
}

/// Longest datagram that is looked at, in bytes; what lies beyond is cut off.
pub const MAX_DATAGRAM_LEN: usize = 576;

/// The part of a datagram that is decoded.
pub open spec fn datagram(bytes: Seq<u8>) -> Seq<u8> {
    if bytes.len() > MAX_DATAGRAM_LEN {
        bytes.take(MAX_DATAGRAM_LEN as int)
    } else {
        bytes
    }
}

/// Whether what was handed out is the encoding of a reply, or the error
/// that stands for a reply that does not encode.
pub open spec fn sent(r: Result<Option<Vec<u8>>, DhcpError>, reply: Message) -> bool {
    match encoded(reply) {
        Some(bytes) => r matches Ok(Some(out)) && out@ == bytes,
        None => r == Err::<Option<Vec<u8>>, DhcpError>(DhcpError::Encode),
    }
}

/// What handling a datagram comes to: an empty one is passed over; one that
/// does not decode is an error; any other runs through the state machine,
/// and the reply, if there is one, is handed out encoded.
pub open spec fn handled(
    table: Map<u32, Session>,
    quota: nat,
    conf: ConfView,
    bytes: Seq<u8>,
    self_ipv4: Ipv4,
    now: u64,
    after: Map<u32, Session>,
    r: Result<Option<Vec<u8>>, DhcpError>,
) -> bool {
    if bytes.len() == 0 {
        after == table && r matches Ok(None)
    } else {
        match decoded(datagram(bytes)) {
            None => after == table && r == Err::<Option<Vec<u8>>, DhcpError>(DhcpError::Parse),
            Some(msg) => {
                let (next, answer) = process(table, quota, conf, msg, self_ipv4, now);
                after == next && match answer {
                    Err(e) => r == Err::<Option<Vec<u8>>, DhcpError>(e),
                    Ok(None) => r matches Ok(None),
                    Ok(Some(v)) => exists|reply: Message| #[trigger]
                        message_view(reply) == v && sent(r, reply),
                }
            },
        }
    }
}

/// Handles one datagram that arrived on an interface with address
/// `self_ipv4` at time `now`: decodes it, runs the state machine, and hands
/// out the bytes of the reply to broadcast from that interface, if there is
/// one.
pub fn handle_dhcp_message(
    sessions: &mut SessionMap,
    config: &Conf,
    buffer: &[u8],
    self_ipv4: Ipv4,
    now: u64,
) -> (r: Result<Option<Vec<u8>>, DhcpError>)
    requires
        old(sessions).wf(),
    ensures
        final(sessions).wf(),
        final(sessions).quota() == old(sessions).quota(),
        handled(
            old(sessions)@,
            old(sessions).quota(),
            config@,
            buffer@,
            self_ipv4,
            now,
            final(sessions)@,
            r,
        ),
{
    if buffer.len() == 0 {
        return Ok(None);
    }
    let received = if buffer.len() > MAX_DATAGRAM_LEN {
        slice_subrange(buffer, 0, MAX_DATAGRAM_LEN)
    } else {
        buffer
    };
    let incoming = match DhcpMsgWrapper::from_buffer(received) {
        Ok(m) => m,
        Err(e) => {
            return Err(e);
        },
    };
    match process_message(sessions, config, incoming, self_ipv4, now) {
        Ok(Some(reply)) => {
            let reply = DhcpMsgWrapper::from_msg(reply);
            match reply.to_bytes() {
                Ok(bytes) => {
                    let out: Result<Option<Vec<u8>>, DhcpError> = Ok(Some(bytes));
                    proof {
                        assert(sent(out, reply.msg));
                    }
                    out
                },
                Err(e) => {
                    proof {
                        assert(sent(Err(DhcpError::Encode), reply.msg));
                    }
                    Err(e)
                },
            }
        },
        Ok(None) => Ok(None),
        Err(e) => Err(e),
    }
}

/// Whether a session has outlived `ttl` at time `now`. A session that starts
/// after `now` has not.
pub open spec fn expired(s: Session, now: u64, ttl: u64) -> bool {
    now >= s.start_time && now - s.start_time > ttl
}

/// The sessions that a reaper pass at time `now` leaves in the table.
pub open spec fn reaped(table: Map<u32, Session>, now: u64, ttl: u64) -> Map<u32, Session> {
    table.restrict(Set::new(|xid: u32| table.contains_key(xid) && !expired(table[xid], now, ttl)))
}

/// The transactions whose sessions have outlived `ttl` at time `now`, each
/// once.
pub fn expired_sessions(sessions: &SessionMap, now: u64, ttl: u64) -> (r: Vec<u32>)
    ensures
        r@.no_duplicates(),
        forall|xid: u32|
            r@.contains(xid) <==> sessions@.contains_key(xid) && expired(
                sessions@[xid],
                now,
                ttl,
            ),
{
    let entries = sessions.iter();
    let ghost keys = entries@.map_values(|e: (u32, &Session)| e.0);
    let ghost mut from: Seq<int> = Seq::empty();
    let mut out: Vec<u32> = Vec::new();
    let mut i: usize = 0;
    while i < entries.len()
        invariant
            i <= entries@.len(),
            keys == entries@.map_values(|e: (u32, &Session)| e.0),
            keys.no_duplicates(),
            forall|j: int|
                0 <= j < entries@.len() ==> sessions@.contains_key((#[trigger] entries@[j]).0)
                    && *entries@[j].1 == sessions@[entries@[j].0],
            from.len() == out@.len(),
            forall|k: int|
                0 <= k < out@.len() ==> 0 <= #[trigger] from[k] < i && out@[k] == keys[from[k]]
                    && expired(sessions@[out@[k]], now, ttl),
            forall|k: int, l: int| 0 <= k < l < out@.len() ==> from[k] < from[l],
            forall|j: int|
                0 <= j < i && expired(sessions@[#[trigger] keys[j]], now, ttl) ==> out@.contains(
                    keys[j],
                ),
        decreases entries@.len() - i,
    {
        let (xid, session) = entries[i];
        proof {
            assert(keys[i as int] == xid);
            assert(entries@[i as int].0 == xid);
        }
        if now >= session.start_time && now - session.start_time > ttl {
            let ghost before = out@;
            out.push(xid);
            proof {
                from = from.push(i as int);
                assert forall|j: int|
                    0 <= j < i + 1 && expired(
                        sessions@[#[trigger] keys[j]],
                        now,
                        ttl,
                    ) implies out@.contains(keys[j]) by {
                    if j < i {
                        let k = choose|k: int| 0 <= k < before.len() && before[k] == keys[j];
                        assert(out@[k] == keys[j]);
                    } else {
                        assert(out@[before.len() as int] == keys[j]);
                    }
                }
            }
        }
        i = i + 1;
    }
    proof {
        assert forall|k: int, l: int| 0 <= k < l < out@.len() implies out@[k] != out@[l] by {
            assert(from[k] < from[l]);
            assert(keys[from[k]] != keys[from[l]]);
        }
        assert forall|xid: u32|
            out@.contains(xid) <==> sessions@.contains_key(xid) && expired(
                sessions@[xid],
                now,
                ttl,
            ) by {
            if sessions@.contains_key(xid) && expired(sessions@[xid], now, ttl) {
                assert(keys.to_set().contains(xid));
                let j = choose|j: int| 0 <= j < keys.len() && keys[j] == xid;
                assert(keys[j] == xid);
            }
            if out@.contains(xid) {
                let k = choose|k: int| 0 <= k < out@.len() && out@[k] == xid;
                assert(entries@[from[k]].0 == xid);
            }
        }
    }
    out
}

/// Removes the sessions of the given transactions.
pub fn remove_sessions(sessions: &mut SessionMap, xids: &Vec<u32>)
    requires
        old(sessions).wf(),
    ensures
        final(sessions).wf(),
        final(sessions).quota() == old(sessions).quota(),
        final(sessions)@ == old(sessions)@.remove_keys(xids@.to_set()),
{
    let mut i: usize = 0;
    while i < xids.len()
        invariant
            i <= xids@.len(),
            sessions.wf(),
            sessions.quota() == old(sessions).quota(),
            sessions@ == old(sessions)@.remove_keys(xids@.take(i as int).to_set()),
        decreases xids@.len() - i,
    {
        let ghost before = sessions@;
        sessions.remove(&xids[i]);
        proof {
            let head = xids@.take(i as int);
            let longer = xids@.take(i + 1);
            let done = head.to_set();
            let next = longer.to_set();
            assert(longer =~= head.push(xids@[i as int]));
            assert forall|x: u32| next.contains(x) <==> done.insert(xids@[i as int]).contains(
                x,
            ) by {
                if next.contains(x) {
                    let k = choose|k: int| 0 <= k < longer.len() && longer[k] == x;
                    if k < i {
                        assert(head[k] == x);
                    }
                }
                if done.contains(x) {
                    let k = choose|k: int| 0 <= k < head.len() && head[k] == x;
                    assert(longer[k] == x);
                }
                if x == xids@[i as int] {
                    assert(longer[i as int] == x);
                }
            }
            assert(next =~= done.insert(xids@[i as int]));
            assert(before.remove(xids@[i as int]) =~= old(sessions)@.remove_keys(next));
        }
        i = i + 1;
    }
    proof {
        assert(xids@.take(xids@.len() as int) =~= xids@);
    }
}

/// One pass of the reaper at time `now`: removes the sessions that have
/// outlived `ttl`, and hands out their transaction ids.
pub fn reap_sessions(sessions: &mut SessionMap, now: u64, ttl: u64) -> (r: Vec<u32>)
    requires
        old(sessions).wf(),
    ensures
        final(sessions).wf(),
        final(sessions).quota() == old(sessions).quota(),
        final(sessions)@ == reaped(old(sessions)@, now, ttl),
        r@.no_duplicates(),
        forall|xid: u32|
            r@.contains(xid) <==> old(sessions)@.contains_key(xid) && expired(
                old(sessions)@[xid],
                now,
                ttl,
            ),
{
    let victims = expired_sessions(sessions, now, ttl);
    remove_sessions(sessions, &victims);
    proof {
        assert(old(sessions)@.remove_keys(victims@.to_set()) =~= reaped(old(sessions)@, now, ttl));
    }
    victims
}

/// The configuration that the state machine resolves for an offer: that of
/// the client that the session's stored discover describes.
pub open spec fn offer_config(table: Map<u32, Session>, conf: ConfView, offer: Message) -> Option<
    ConfEntryView,
> {
    let xid = message_view(offer).header.xid;
    if table.contains_key(xid) {
        match table[xid].discover_message {
            Some(discover) => match rendered_doc(discover) {
                Some(doc) => conf.resolve(doc),
                None => None,
            },
            None => None,
        }
    } else {
        None
    }
}

/// Whatever message arrives, a table within its quota stays within it.
pub proof fn lemma_process_keeps_quota(
    table: Map<u32, Session>,
    quota: nat,
    conf: ConfView,
    msg: Message,
    self_ipv4: Ipv4,
    now: u64,
)
    requires
        table.dom().finite(),
        table.len() <= quota,
    ensures
        process(table, quota, conf, msg, self_ipv4, now).0.dom().finite(),
        process(table, quota, conf, msg, self_ipv4, now).0.len() <= quota,
{
    let xid = message_view(msg).header.xid;
    let after = process(table, quota, conf, msg, self_ipv4, now).0;
    if after != table {
        if after == table.remove(xid) {
            if table.contains_key(xid) {
                table.lemma_remove_key_len(xid);
            } else {
                assert(table.remove(xid) =~= table);
            }
        } else {
            let session = after[xid];
            assert(after == table.insert(xid, session));
            if table.contains_key(xid) {
                assert(table.insert(xid, session).dom() =~= table.dom());
            }
        }
    }
}

/// Once a discover that asks for a boot file name has been handled, the
/// table holds a session for its transaction, and that session holds the
/// message. This needs room in the table or a session already there, and a
/// hardware address of six bytes or more.
pub proof fn lemma_discover_is_stored(
    table: Map<u32, Session>,
    quota: nat,
    conf: ConfView,
    msg: Message,
    self_ipv4: Ipv4,
    now: u64,
)
    requires
        message_view(msg).has_msg_type(MSG_DISCOVER),
        message_view(msg).requests_boot_info(),
        client_mac(message_view(msg)) is Some,
        table.contains_key(message_view(msg).header.xid) || table.len() < quota,
    ensures
        process(table, quota, conf, msg, self_ipv4, now).0.contains_key(
            message_view(msg).header.xid,
        ),
        process(table, quota, conf, msg, self_ipv4, now).0[message_view(
            msg,
        ).header.xid].discover_message == Some(msg),
        process(table, quota, conf, msg, self_ipv4, now).1 == Ok::<Option<MessageView>, DhcpError>(
            None,
        ),
{
}

/// A reply to an offer carries the boot file of the configuration resolved
/// for the client, and names as server the configured TFTP server or, where
/// none is configured, the receiving interface's address.
pub proof fn lemma_offer_reply_carries_boot_info(
    table: Map<u32, Session>,
    quota: nat,
    conf: ConfView,
    msg: Message,
    self_ipv4: Ipv4,
    now: u64,
    reply: MessageView,
)
    requires
        message_view(msg).has_msg_type(MSG_OFFER),
        process(table, quota, conf, msg, self_ipv4, now).1 == Ok::<Option<MessageView>, DhcpError>(
            Some(reply),
        ),
    ensures
        offer_config(table, conf, msg) matches Some(cfg) && cfg.boot_file is Some && {
            &&& reply.opts.contains_key(OPT_BOOTFILE_NAME)
            &&& reply.opts[OPT_BOOTFILE_NAME] == OptView::BootfileName(boot_file_bytes(cfg))
            &&& reply.fname == Some(boot_file_bytes(cfg))
            &&& reply.opts.contains_key(OPT_SERVER_IDENTIFIER)
            &&& reply.opts[OPT_SERVER_IDENTIFIER] == OptView::ServerIdentifier(
                boot_server(cfg, Some(self_ipv4))->0,
            )
            &&& reply.opts.contains_key(OPT_TFTP_SERVER_ADDRESS)
            &&& reply.opts[OPT_TFTP_SERVER_ADDRESS] == OptView::TftpServerAddress(
                boot_server(cfg, Some(self_ipv4))->0,
            )
            &&& reply.header.siaddr == boot_server(cfg, Some(self_ipv4))->0
            &&& (cfg.boot_server_ipv4 is None || cfg.boot_server_ipv4 == Some(self_ipv4))
                ==> reply.opts[OPT_SERVER_IDENTIFIER] == OptView::ServerIdentifier(self_ipv4)
        },
{
}

/// A reply to a request is an acknowledgement: a boot reply with the
/// broadcast flag set, for the transaction of the request and the six-byte
/// hardware address of its client.
pub proof fn lemma_request_reply_is_ack(
    table: Map<u32, Session>,
    quota: nat,
    conf: ConfView,
    msg: Message,
    self_ipv4: Ipv4,
    now: u64,
    reply: MessageView,
)
    requires
        message_view(msg).has_msg_type(MSG_REQUEST),
        process(table, quota, conf, msg, self_ipv4, now).1 == Ok::<Option<MessageView>, DhcpError>(
            Some(reply),
        ),
    ensures
        reply.msg_type() == Some(MSG_ACK),
        reply.header.opcode == OP_BOOT_REPLY,
        reply.broadcast(),
        reply.header.xid == message_view(msg).header.xid,
        reply.header.hlen == MAC_LEN,
        reply.chaddr.len() == MAC_LEN,
        client_mac(message_view(msg)) == Some(reply.chaddr),
        process(table, quota, conf, msg, self_ipv4, now).0 == table,
{
    assert(FLAG_BROADCAST & FLAG_BROADCAST == FLAG_BROADCAST) by (bit_vector);
}

/// An offer for a transaction that is not tracked changes nothing and is not
/// answered.
pub proof fn lemma_untracked_offer_is_dropped(
    table: Map<u32, Session>,
    quota: nat,
    conf: ConfView,
    msg: Message,
    self_ipv4: Ipv4,
    now: u64,
)
    requires
        message_view(msg).has_msg_type(MSG_OFFER),
        !table.contains_key(message_view(msg).header.xid),
    ensures
        process(table, quota, conf, msg, self_ipv4, now).0 == table,
        !(process(table, quota, conf, msg, self_ipv4, now).1 matches Ok(Some(_))),
{
}

/// A discover that does not ask for a boot file name changes nothing and is
/// not answered.
pub proof fn lemma_plain_discover_is_dropped(
    table: Map<u32, Session>,
    quota: nat,
    conf: ConfView,
    msg: Message,
    self_ipv4: Ipv4,
    now: u64,
)
    requires
        message_view(msg).has_msg_type(MSG_DISCOVER),
        !message_view(msg).requests_boot_info(),
    ensures
        process(table, quota, conf, msg, self_ipv4, now).0 == table,
        !(process(table, quota, conf, msg, self_ipv4, now).1 matches Ok(Some(_))),
{
}

/// The two sockets of one network device, with what is known of the
/// device.
pub struct Interface<N, S> {
    /// The device: its name and addresses.
    pub iface: N,
    /// The socket bound to the client port.
    pub client: S,
    /// The socket bound to the server port, which replies are sent from.
    pub server: S,
}

/// The devices that are listened on. Each socket has a key for the readiness
/// poller: twice the position of its device for the server socket, and one
/// more for the client socket.
pub struct Interfaces<N, S> {
    pub interfaces: Vec<Interface<N, S>>,
}

/// The socket that a key of the readiness poller stands for.
pub open spec fn socket_of_key<N, S>(interfaces: Seq<Interface<N, S>>, key: int) -> S
    recommends
        0 <= key < 2 * interfaces.len(),
{
    if key % 2 == 0 {
        interfaces[key / 2].server
    } else {
        interfaces[key / 2].client
    }
}

impl<N, S> Interfaces<N, S> {
    /// The devices that are listened on.
    pub fn from(interfaces: Vec<Interface<N, S>>) -> (r: Self)
        ensures
            r.interfaces == interfaces,
    {
        Self { interfaces }
    }

    /// Every socket, at the position of its key.
    pub fn sockets<'a>(&'a self) -> (r: Vec<&'a S>)
        ensures
            r@.len() == 2 * self.interfaces@.len(),
            forall|key: int|
                0 <= key < r@.len() ==> *#[trigger] r@[key] == socket_of_key(
                    self.interfaces@,
                    key,
                ),
    {
        let mut out: Vec<&'a S> = Vec::new();
        let mut i: usize = 0;
        while i < self.interfaces.len()
            invariant
                i <= self.interfaces@.len(),
                out@.len() == 2 * i,
                forall|key: int|
                    0 <= key < out@.len() ==> *#[trigger] out@[key] == socket_of_key(
                        self.interfaces@,
                        key,
                    ),
            decreases self.interfaces@.len() - i,
        {
            out.push(&self.interfaces[i].server);
            out.push(&self.interfaces[i].client);
            i = i + 1;
        }
        out
    }

    /// The device whose socket has the given key.
    pub fn interface_from_event<'a>(&'a self, key: usize) -> (r: Option<&'a Interface<N, S>>)
        ensures
            match r {
                Some(i) => key / 2 < self.interfaces@.len() && *i == self.interfaces@[key as int
                    / 2],
                None => key / 2 >= self.interfaces@.len(),
            },
    {
        let index = key / 2;
        if index < self.interfaces.len() {
            Some(&self.interfaces[index])
        } else {
            None
        }
    }

    /// The socket that has the given key.
    pub fn socket_from_event<'a>(&'a self, key: usize) -> (r: Option<&'a S>)
        ensures
            match r {
                Some(s) => key / 2 < self.interfaces@.len() && *s == socket_of_key(
                    self.interfaces@,
                    key as int,
                ),
                None => key / 2 >= self.interfaces@.len(),
            },
    {
        match self.interface_from_event(key) {
            Some(interface) => if key % 2 == 0 {
                Some(&interface.server)
            } else {
                Some(&interface.client)
            },
            None => None,
        }
    }
}

} // verus!
