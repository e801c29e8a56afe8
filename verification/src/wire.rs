//! DHCPv4 messages as the wire codec holds them, and the operations of the
//! codec that the rest of the library relies on.
//!
//! A message is a value of the codec; this module never looks inside one.
//! What a message holds is named by [`message_view`], and every operation below
//! states its effect on that view. None of these contracts is proved: each is
//! a statement about the codec, next to the call that it describes.

use crate::net::Ipv4;
use crate::options::options_admitted;
use dhcproto::v4::{Decodable, Decoder, DhcpOption, Encodable, Encoder, Message, OptionCode};
use vstd::prelude::*;

verus! {

/// Option code of the subnet mask.
pub const OPT_SUBNET_MASK: u8 = 1;

/// Option code of the address lease time.
pub const OPT_ADDRESS_LEASE_TIME: u8 = 51;

/// Option code of the message type.
pub const OPT_MESSAGE_TYPE: u8 = 53;

/// Option code of the server identifier.
pub const OPT_SERVER_IDENTIFIER: u8 = 54;

/// Option code of the parameter request list.
pub const OPT_PARAMETER_REQUEST_LIST: u8 = 55;

/// Option code of the boot file name.
pub const OPT_BOOTFILE_NAME: u8 = 67;

/// Option code of the TFTP server address.
pub const OPT_TFTP_SERVER_ADDRESS: u8 = 150;

/// Message type of a client looking for servers.
pub const MSG_DISCOVER: u8 = 1;

/// Message type of a server's offer.
pub const MSG_OFFER: u8 = 2;

/// Message type of a client's request for what was offered.
pub const MSG_REQUEST: u8 = 3;

/// Message type of a client that declines what was offered.
pub const MSG_DECLINE: u8 = 4;

/// Message type of a server's acknowledgement.
pub const MSG_ACK: u8 = 5;

/// Opcode of a request sent by a client.
pub const OP_BOOT_REQUEST: u8 = 1;

/// Opcode of a reply sent by a server.
pub const OP_BOOT_REPLY: u8 = 2;

/// The broadcast bit of the flags field.
pub const FLAG_BROADCAST: u16 = 0x8000;

/// Longest boot file name that the fixed header can carry, in bytes.
pub const MAX_FNAME_LEN: usize = 128;

/// The length from which on the text of a status code option cannot be
/// written, in bytes.
pub const MAX_STATUS_TEXT_LEN: usize = 255;

/// Size of the hardware address field of the fixed header, in bytes.
pub const CHADDR_LEN: usize = 16;

/// The fixed-size fields of a message's header.
#[derive(Clone, Copy, Debug, PartialEq, Eq, Structural)]
pub struct Header {
    pub opcode: u8,
    pub htype: u8,
    /// Number of bytes of the hardware address field that are in use.
    pub hlen: u8,
    pub hops: u8,
    pub xid: u32,
    pub secs: u16,
    pub flags: u16,
    pub ciaddr: Ipv4,
    pub yiaddr: Ipv4,
    pub siaddr: Ipv4,
    pub giaddr: Ipv4,
}

/// An option of a message, as far as this library reads or writes it.
#[derive(Clone, Debug)]
pub enum DhcpOpt {
    SubnetMask(Ipv4),
    AddressLeaseTime(u32),
    MessageType(u8),
    ServerIdentifier(Ipv4),
    ParameterRequestList(Vec<u8>),
    BootfileName(Vec<u8>),
    TftpServerAddress(Ipv4),
    /// Any option that the library carries along without reading it.
    Other,
}

/// The mathematical value of a [`DhcpOpt`].
pub enum OptView {
    SubnetMask(Ipv4),
    AddressLeaseTime(u32),
    MessageType(u8),
    ServerIdentifier(Ipv4),
    ParameterRequestList(Seq<u8>),
    BootfileName(Seq<u8>),
    TftpServerAddress(Ipv4),
    Other,
}

impl OptView {
    /// The code under which the codec files an option of this kind; `Other`
    /// has none of its own.
    pub open spec fn code(self) -> u8 {
        match self {
            OptView::SubnetMask(_) => OPT_SUBNET_MASK,
            OptView::AddressLeaseTime(_) => OPT_ADDRESS_LEASE_TIME,
            OptView::MessageType(_) => OPT_MESSAGE_TYPE,
            OptView::ServerIdentifier(_) => OPT_SERVER_IDENTIFIER,
            OptView::ParameterRequestList(_) => OPT_PARAMETER_REQUEST_LIST,
            OptView::BootfileName(_) => OPT_BOOTFILE_NAME,
            OptView::TftpServerAddress(_) => OPT_TFTP_SERVER_ADDRESS,
            OptView::Other => 0,
        }
    }
}

impl View for DhcpOpt {
    type V = OptView;

    open spec fn view(&self) -> OptView {
        match self {
            DhcpOpt::SubnetMask(ip) => OptView::SubnetMask(*ip),
            DhcpOpt::AddressLeaseTime(t) => OptView::AddressLeaseTime(*t),
            DhcpOpt::MessageType(t) => OptView::MessageType(*t),
            DhcpOpt::ServerIdentifier(ip) => OptView::ServerIdentifier(*ip),
            DhcpOpt::ParameterRequestList(l) => OptView::ParameterRequestList(l@),
            DhcpOpt::BootfileName(n) => OptView::BootfileName(n@),
            DhcpOpt::TftpServerAddress(ip) => OptView::TftpServerAddress(*ip),
            DhcpOpt::Other => OptView::Other,
        }
    }
}

/// What a message holds, as plain values.
pub struct MessageView {
    pub header: Header,
    /// The hardware address: the bytes of the address field that are in use.
    pub chaddr: Seq<u8>,
    pub sname: Option<Seq<u8>>,
    pub fname: Option<Seq<u8>>,
    /// For each option code, the option that the message files under it.
    pub opts: Map<u8, OptView>,
}

impl MessageView {
    /// The message type option, if the message has one.
    pub open spec fn msg_type(self) -> Option<u8> {
        if self.opts.contains_key(OPT_MESSAGE_TYPE) {
            match self.opts[OPT_MESSAGE_TYPE] {
                OptView::MessageType(t) => Some(t),
                _ => None,
            }
        } else {
            None
        }
    }

    /// Whether the message files an option under `code`.
    pub open spec fn has_option(self, code: u8) -> bool {
        self.opts.contains_key(code)
    }

    /// Whether the message is of the given type.
    pub open spec fn has_msg_type(self, t: u8) -> bool {
        self.msg_type() == Some(t)
    }

    /// Whether the client asks for a boot file name in its parameter request
    /// list.
    pub open spec fn requests_boot_info(self) -> bool {
        self.opts.contains_key(OPT_PARAMETER_REQUEST_LIST)
            && match self.opts[OPT_PARAMETER_REQUEST_LIST] {
            OptView::ParameterRequestList(l) => l.contains(OPT_BOOTFILE_NAME),
            _ => false,
        }
    }

    /// The subnet mask option, if the message has one.
    pub open spec fn subnet_mask(self) -> Option<Ipv4> {
        if self.opts.contains_key(OPT_SUBNET_MASK) {
            match self.opts[OPT_SUBNET_MASK] {
                OptView::SubnetMask(ip) => Some(ip),
                _ => None,
            }
        } else {
            None
        }
    }

    /// The address lease time option, if the message has one.
    pub open spec fn address_lease_time(self) -> Option<u32> {
        if self.opts.contains_key(OPT_ADDRESS_LEASE_TIME) {
            match self.opts[OPT_ADDRESS_LEASE_TIME] {
                OptView::AddressLeaseTime(t) => Some(t),
                _ => None,
            }
        } else {
            None
        }
    }

    /// The admission filter: an offer that names no boot file yet, a
    /// request, an acknowledgement or a discover.
    pub open spec fn should_handle(self) -> bool {
        ||| self.has_msg_type(MSG_OFFER) && !self.has_option(OPT_BOOTFILE_NAME)
        ||| self.has_msg_type(MSG_REQUEST)
        ||| self.has_msg_type(MSG_ACK)
        ||| self.has_msg_type(MSG_DISCOVER)
    }

    /// Whether the broadcast bit of the flags is set.
    pub open spec fn broadcast(self) -> bool {
        self.header.flags & FLAG_BROADCAST == FLAG_BROADCAST
    }
}

/// A decoded DHCPv4 message of the wire codec.
#[verifier::external_type_specification]
#[verifier::external_body]
pub struct ExMessage(dhcproto::v4::Message);

/// Why the wire codec could not decode a buffer.
#[verifier::external_type_specification]
#[verifier::external_body]
pub struct ExDecodeError(dhcproto::v4::DecodeError);

/// Why the wire codec could not encode a message.
#[verifier::external_type_specification]
#[verifier::external_body]
pub struct ExEncodeError(dhcproto::v4::EncodeError);

/// The contents of a message. In `opts`, the entry for a code is the option
/// that the message files under the codec's option code for that number.
pub uninterp spec fn message_view(m: Message) -> MessageView;

/// The message that the codec decodes from a buffer, if it decodes one.
pub uninterp spec fn wire_decode(bytes: Seq<u8>) -> Option<Message>;

/// The number of bytes of the text of a message's status code option; zero
/// where it has none.
pub uninterp spec fn status_text_len(m: Message) -> nat;

/// The bytes that the codec encodes a message to, if it encodes it.
pub uninterp spec fn wire_encode(m: Message) -> Option<Seq<u8>>;

/// `Message::decode` on a fresh `Decoder` over `buf`: the outcome is a
/// function of the bytes alone. The codec takes the joined length of a few
/// options for granted, with assertions and subtractions that fail on
/// another, so a buffer whose options the walk does not admit is left out.
#[verifier::external_body]
pub(crate) fn decode_message(buf: &[u8]) -> (r: Result<Message, dhcproto::v4::DecodeError>)
    requires
        options_admitted(buf@),
    ensures
        match r {
            Ok(m) => wire_decode(buf@) == Some(m),
            Err(_) => wire_decode(buf@) is None,
        },
{
    Message::decode(&mut Decoder::new(buf))
}

/// The status code option of `Message::opts`, told apart from every other
/// option: the number of bytes of its text, and zero where the message has
/// no such option.
#[verifier::external_body]
pub(crate) fn message_status_text_len(m: &Message) -> (r: usize)
    ensures
        r == status_text_len(*m),
{
    match m.opts().get(OptionCode::BulkLeaseQueryStatusCode) {
        Some(DhcpOption::BulkLeaseQueryStatusCode(_, text)) => text.len(),
        _ => 0,
    }
}

/// `Message::encode` into a fresh `Encoder` over an empty buffer: the outcome
/// is a function of the message alone. The codec writes the length of a
/// status code option as one more than the length of its text in eight bits,
/// which overflows at 255, so a message with such a text is left out.
#[verifier::external_body]
pub(crate) fn encode_message(m: &Message) -> (r: Result<Vec<u8>, dhcproto::v4::EncodeError>)
    requires
        status_text_len(*m) < MAX_STATUS_TEXT_LEN,
    ensures
        match r {
            Ok(bytes) => wire_encode(*m) == Some(bytes@),
            Err(_) => wire_encode(*m) is None,
        },
{
    let mut buf = Vec::new();
    m.encode(&mut Encoder::new(&mut buf))?;
    Ok(buf)
}

/// The options of a message that has none.
pub open spec fn no_options() -> Map<u8, OptView> {
    Map::empty()
}

/// A sequence of no bytes.
pub open spec fn no_bytes() -> Seq<u8> {
    Seq::empty()
}

/// The header of a message that has just been created, but for its
/// transaction id.
pub open spec fn blank_header(xid: u32) -> Header {
    Header {
        opcode: OP_BOOT_REQUEST,
        htype: 1,
        hlen: 0,
        hops: 0,
        xid,
        secs: 0,
        flags: 0,
        ciaddr: Ipv4::unspecified(),
        yiaddr: Ipv4::unspecified(),
        siaddr: Ipv4::unspecified(),
        giaddr: Ipv4::unspecified(),
    }
}

/// `Message::default`: a boot request for Ethernet with every address
/// unspecified and no options. Its transaction id is drawn at random, so
/// nothing is said of it.
#[verifier::external_body]
pub(crate) fn blank_message() -> (blank: Message)
    ensures
        message_view(blank).header == blank_header(message_view(blank).header.xid),
        message_view(blank).chaddr == no_bytes(),
        message_view(blank).sname is None,
        message_view(blank).fname is None,
        message_view(blank).opts == no_options(),
{
    Message::default()
}

/// `Message::clone`: the copy is the same message.
#[verifier::external_body]
pub(crate) fn clone_message(m: &Message) -> (r: Message)
    ensures
        r == *m,
{
    m.clone()
}

/// The getters of `Message` for the fixed-size header fields, each converted
/// to its number.
#[verifier::external_body]
pub(crate) fn message_header(m: &Message) -> (h: Header)
    ensures
        h == message_view(*m).header,
{
    Header {
        opcode: m.opcode().into(),
        htype: m.htype().into(),
        hlen: m.hlen(),
        hops: m.hops(),
        xid: m.xid(),
        secs: m.secs(),
        flags: m.flags().into(),
        ciaddr: Ipv4 { bits: m.ciaddr().to_bits() },
        yiaddr: Ipv4 { bits: m.yiaddr().to_bits() },
        siaddr: Ipv4 { bits: m.siaddr().to_bits() },
        giaddr: Ipv4 { bits: m.giaddr().to_bits() },
    }
}

/// The setters of `Message` for the fixed-size header fields. There is none
/// for `hlen`, which only `set_chaddr` changes.
#[verifier::external_body]
pub(crate) fn set_message_header(m: &mut Message, h: Header)
    ensures
        message_view(*final(m)) == (MessageView {
            header: Header { hlen: message_view(*old(m)).header.hlen, ..h },
            ..message_view(*old(m))
        }),
{
    m.set_opcode(h.opcode.into()).set_htype(h.htype.into()).set_hops(h.hops);
    m.set_xid(h.xid).set_secs(h.secs).set_flags(h.flags.into());
    m.set_ciaddr(h.ciaddr.bits).set_yiaddr(h.yiaddr.bits);
    m.set_siaddr(h.siaddr.bits).set_giaddr(h.giaddr.bits);
}

/// `Message::chaddr`: the first `hlen` bytes of the hardware address field.
/// The codec slices the field without a check, so a length beyond the field
/// is left out.
#[verifier::external_body]
pub(crate) fn message_chaddr(m: &Message) -> (r: Vec<u8>)
    requires
        message_view(*m).header.hlen <= CHADDR_LEN,
    ensures
        r@ == message_view(*m).chaddr,
        r@.len() == message_view(*m).header.hlen,
{
    m.chaddr().to_vec()
}

/// `Message::set_chaddr`: the field takes the given bytes, at most sixteen of
/// them, and `hlen` their number.
#[verifier::external_body]
pub(crate) fn set_message_chaddr(m: &mut Message, chaddr: &[u8])
    requires
        chaddr@.len() <= CHADDR_LEN,
    ensures
        message_view(*final(m)) == (MessageView {
            header: Header { hlen: chaddr@.len() as u8, ..message_view(*old(m)).header },
            chaddr: chaddr@,
            ..message_view(*old(m))
        }),
{
    m.set_chaddr(chaddr);
}

/// `Message::set_fname`: the file name field takes the given bytes. The codec
/// asserts that they fit the field, so longer names are left out.
#[verifier::external_body]
pub(crate) fn set_message_fname(m: &mut Message, file: &[u8])
    requires
        file@.len() <= MAX_FNAME_LEN,
    ensures
        message_view(*final(m)) == (MessageView {
            fname: Some(file@),
            ..message_view(*old(m))
        }),
{
    m.set_fname(file);
}

/// `DhcpOptions::get` on the message's options, under the codec's option code
/// for `code`; the option found is converted variant by variant.
#[verifier::external_body]
pub(crate) fn message_option(m: &Message, code: u8) -> (r: Option<DhcpOpt>)
    ensures
        match r {
            Some(o) => message_view(*m).opts.contains_key(code) && message_view(*m).opts[code]
                == o@,
            None => !message_view(*m).opts.contains_key(code),
        },
{
    Some(match m.opts().get(OptionCode::from(code))? {
        DhcpOption::SubnetMask(ip) => DhcpOpt::SubnetMask(Ipv4 { bits: ip.to_bits() }),
        DhcpOption::AddressLeaseTime(t) => DhcpOpt::AddressLeaseTime(*t),
        DhcpOption::MessageType(t) => DhcpOpt::MessageType((*t).into()),
        DhcpOption::ServerIdentifier(ip) => DhcpOpt::ServerIdentifier(Ipv4 { bits: ip.to_bits() }),
        DhcpOption::ParameterRequestList(l) => DhcpOpt::ParameterRequestList(
            l.iter().map(|c| (*c).into()).collect(),
        ),
        DhcpOption::BootfileName(n) => DhcpOpt::BootfileName(n.clone()),
        DhcpOption::TFTPServerAddress(ip) => DhcpOpt::TftpServerAddress(Ipv4 { bits: ip.to_bits() }),
        _ => DhcpOpt::Other,
    })
}

/// `DhcpOptions::insert` on the message's options: the option is filed under
/// its own code, in place of what was there.
#[verifier::external_body]
pub(crate) fn insert_message_option(m: &mut Message, opt: DhcpOpt)
    requires
        !(opt is Other),
    ensures
        message_view(*final(m)) == (MessageView {
            opts: message_view(*old(m)).opts.insert(opt@.code(), opt@),
            ..message_view(*old(m))
        }),
{
    m.opts_mut().insert(match opt {
        DhcpOpt::SubnetMask(ip) => DhcpOption::SubnetMask(ip.bits.into()),
        DhcpOpt::AddressLeaseTime(t) => DhcpOption::AddressLeaseTime(t),
        DhcpOpt::MessageType(t) => DhcpOption::MessageType(t.into()),
        DhcpOpt::ServerIdentifier(ip) => DhcpOption::ServerIdentifier(ip.bits.into()),
        DhcpOpt::ParameterRequestList(l) => DhcpOption::ParameterRequestList(
            l.into_iter().map(OptionCode::from).collect(),
        ),
        DhcpOpt::BootfileName(n) => DhcpOption::BootfileName(n),
        DhcpOpt::TftpServerAddress(ip) => DhcpOption::TFTPServerAddress(ip.bits.into()),
        DhcpOpt::Other => DhcpOption::Pad,
    });
}

} // verus!
