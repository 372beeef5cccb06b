use vstd::prelude::*;

use mqtt::control::{ControlType, PacketType};
use mqtt::packet::ConnectPacket;
use mqtt::{Decodable, Encodable};

verus! {

/// The fields of an MQTT CONNECT packet, as `mqtt-protocol` reads them.
#[derive(Debug, Clone)]
pub struct ConnectFields {
    pub protocol_name: String,
    pub protocol_level: u8,
    pub clean_session: bool,
    pub keep_alive: u16,
    /// The will topic and message.
    pub will: Option<(String, Vec<u8>)>,
    pub will_qos: u8,
    pub will_retain: bool,
    pub user_name: Option<String>,
    pub password: Option<String>,
    pub client_identifier: String,
}

/// The fields of a CONNECT packet as plain values.
pub struct ConnectView {
    pub protocol_name: Seq<char>,
    pub protocol_level: u8,
    pub clean_session: bool,
    pub keep_alive: u16,
    pub will: Option<(Seq<char>, Seq<u8>)>,
    pub will_qos: u8,
    pub will_retain: bool,
    pub user_name: Option<Seq<char>>,
    pub password: Option<Seq<char>>,
    pub client_identifier: Seq<char>,
}

/// The view of an optional string.
pub open spec fn opt_view(s: Option<String>) -> Option<Seq<char>> {
    match s {
        Some(t) => Some(t@),
        None => None,
    }
}

impl View for ConnectFields {
    type V = ConnectView;

    open spec fn view(&self) -> ConnectView {
        ConnectView {
            protocol_name: self.protocol_name@,
            protocol_level: self.protocol_level,
            clean_session: self.clean_session,
            keep_alive: self.keep_alive,
            will: match self.will {
                Some((t, m)) => Some((t@, m@)),
                None => None,
            },
            will_qos: self.will_qos,
            will_retain: self.will_retain,
            user_name: opt_view(self.user_name),
            password: opt_view(self.password),
            client_identifier: self.client_identifier@,
        }
    }
}

/// The largest length, in bytes, of a string or binary field of a packet.
pub open spec fn max_field_len() -> int {
    65535
}

/// Whether the UTF-8 encoding of `s` fits a packet's length prefix.
pub open spec fn fits_field(s: Seq<char>) -> bool {
    vstd::utf8::encode_utf8(s).len() <= max_field_len()
}

/// The fields that `ConnectPacket::decode` of `mqtt-protocol` reads from the
/// front of `packet`; `None` where it refuses it.
pub uninterp spec fn decoded_connect(packet: Seq<u8>) -> Option<ConnectView>;

/// The bytes that `mqtt-protocol` writes for the CONNECT packet it decodes
/// from `packet`, after `set_user_name(u)` where `user_name` is `Some(u)` and
/// `set_client_identifier(c)` where `client_identifier` is `Some(c)`.
pub uninterp spec fn connect_reencoding(
    packet: Seq<u8>,
    user_name: Option<Option<Seq<char>>>,
    client_identifier: Option<Seq<char>>,
) -> Seq<u8>;

/// The view of an optional optional string.
pub open spec fn opt_opt_view(s: Option<Option<String>>) -> Option<Option<Seq<char>>> {
    match s {
        Some(t) => Some(opt_view(t)),
        None => None,
    }
}

/// The fields `f` with the user name replaced where `user_name` is
/// `Some`, and the client identifier where `client_identifier` is `Some`.
pub open spec fn updated(
    f: ConnectView,
    user_name: Option<Option<Seq<char>>>,
    client_identifier: Option<Seq<char>>,
) -> ConnectView {
    ConnectView {
        protocol_name: f.protocol_name,
        protocol_level: f.protocol_level,
        clean_session: f.clean_session,
        keep_alive: f.keep_alive,
        will: f.will,
        will_qos: f.will_qos,
        will_retain: f.will_retain,
        user_name: match user_name {
            Some(u) => u,
            None => f.user_name,
        },
        password: f.password,
        client_identifier: match client_identifier {
            Some(c) => c,
            None => f.client_identifier,
        },
    }
}

/// `PacketType::from_u8` of `mqtt-protocol`, then `control_type`: whether the
/// first byte of a packet announces a CONNECT. The crate accepts control type
/// 1 only with flags 0, so this holds of the byte 0x10 alone.
#[verifier::external_body]
pub(crate) fn is_connect_packet_type(first_byte: u8) -> (r: bool)
    ensures
        r == (first_byte == 0x10),
{
    match PacketType::from_u8(first_byte) {
        Ok(t) => matches!(t.control_type(), ControlType::Connect),
        Err(_) => false,
    }
}

/// `ConnectPacket::decode` of `mqtt-protocol` on `packet`, with the decoded
/// packet read out by its getters.
#[verifier::external_body]
pub(crate) fn decode_connect(packet: &[u8]) -> (r: Option<ConnectFields>)
    ensures
        match decoded_connect(packet@) {
            None => r is None,
            Some(v) => r matches Some(f) && f@ == v,
        },
{
    match ConnectPacket::decode(&mut std::io::Cursor::new(packet)) {
        Ok(p) => Some(ConnectFields {
            protocol_name: p.protocol_name().to_string(),
            protocol_level: p.protocol_level() as u8,
            clean_session: p.clean_session(),
            keep_alive: p.keep_alive(),
            will: p.will().map(|(t, m)| (t.to_string(), m.to_vec())),
            will_qos: p.will_qos(),
            will_retain: p.will_retain(),
            user_name: p.user_name().map(|s| s.to_string()),
            password: p.password().map(|s| s.to_string()),
            client_identifier: p.client_identifier().to_string(),
        }),
        Err(_) => None,
    }
}

/// `ConnectPacket::decode` of `mqtt-protocol` on `packet`, then
/// `set_user_name` and `set_client_identifier` where asked, then
/// `Encodable::encode` into a fresh vector. Every field the decoder read fits
/// its 16-bit length prefix and the new ones are required to, so no length
/// assertion fires; writing into a vector does not fail. The encoder writes
/// every field the decoder reads, so decoding the result gives the packet's
/// fields with the new ones in place. The packet-type byte and at least one
/// byte of remaining length come first.
#[verifier::external_body]
pub(crate) fn reencode_connect(
    packet: &[u8],
    user_name: Option<Option<String>>,
    client_identifier: Option<String>,
) -> (r: Vec<u8>)
    requires
        decoded_connect(packet@) is Some,
        user_name matches Some(Some(u)) ==> fits_field(u@),
        client_identifier matches Some(c) ==> fits_field(c@),
    ensures
        r@ == connect_reencoding(packet@, opt_opt_view(user_name), opt_view(client_identifier)),
        r@.len() >= 2,
        decoded_connect(r@) == Some(
            updated(
                decoded_connect(packet@).unwrap(),
                opt_opt_view(user_name),
                opt_view(client_identifier),
            ),
        ),
{
    let mut p = match ConnectPacket::decode(&mut std::io::Cursor::new(packet)) {
        Ok(p) => p,
        Err(_) => return Vec::new(),
    };
    if let Some(u) = user_name {
        p.set_user_name(u);
    }
    if let Some(c) = client_identifier {
        p.set_client_identifier(c);
    }
    let mut out: Vec<u8> = Vec::new();
    let _ = p.encode(&mut out);
    out
}

} // verus!
