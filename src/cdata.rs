//! The application payload: which client connection a data segment belongs
//! to, in bincode's fixed-width little-endian layout.
use vstd::prelude::*;

verus! {

/// The payload carried by the one data segment of a flow.
#[derive(Clone, Copy, Debug, PartialEq, Eq)]
pub struct CData {
    /// The pipeline's IPv4 address and listen port.
    pub peer_ip: u32,
    pub peer_port: u16,
    /// The client's local port.
    pub client_port: u16,
    /// The connection's uuid, if it has one.
    pub uuid: Option<[u8; 16]>,
}

pub open spec fn le16(x: u16) -> Seq<u8> {
    seq![(x % 256) as u8, (x / 256) as u8]
}

/// The four octets of an IPv4 address, most significant first.
pub open spec fn octets(x: u32) -> Seq<u8> {
    seq![(x / 0x100_0000) as u8, (x / 0x1_0000 % 256) as u8, (x / 256 % 256) as u8, (x % 256) as u8]
}

/// The length prefix of a 16-byte string: 16 as a little-endian u64.
pub open spec fn len16_prefix() -> Seq<u8> {
    seq![16u8, 0u8, 0u8, 0u8, 0u8, 0u8, 0u8, 0u8]
}

/// The encoding of an optional uuid: a tag byte, then the length-prefixed bytes.
pub open spec fn uuid_bytes(u: Option<[u8; 16]>) -> Seq<u8> {
    match u {
        None => seq![0u8],
        Some(a) => seq![1u8] + len16_prefix() + a@,
    }
}

/// The encoding of the payload fields: address octets, the two ports, the uuid.
pub open spec fn cdata_bytes(peer_ip: u32, peer_port: u16, client_port: u16, uuid: Option<[u8; 16]>) -> Seq<u8> {
    octets(peer_ip) + le16(peer_port) + le16(client_port) + uuid_bytes(uuid)
}

/// `b` starts with a complete encoding (any bytes may follow it).
pub open spec fn cdata_decodable(b: Seq<u8>) -> bool {
    &&& b.len() >= 9
    &&& (b[8] == 0 || (b[8] == 1 && b.len() >= 33 && b.subrange(9, 17) == len16_prefix()))
}

/// The fields read from the start of `b`.
pub open spec fn decoded_ip(b: Seq<u8>) -> u32 {
    (b[0] as nat * 0x100_0000 + b[1] as nat * 0x1_0000 + b[2] as nat * 256 + b[3] as nat) as u32
}

pub open spec fn decoded_u16(b: Seq<u8>, at: int) -> u16 {
    (b[at] as nat + b[at + 1] as nat * 256) as u16
}

pub open spec fn decoded_uuid(b: Seq<u8>) -> Option<Seq<u8>> {
    if b[8] == 0 {
        None
    } else {
        Some(b.subrange(17, 33))
    }
}

/// What `d` reads as the decoding of `b`.
pub open spec fn decodes_to(b: Seq<u8>, d: CData) -> bool {
    &&& d.peer_ip == decoded_ip(b)
    &&& d.peer_port == decoded_u16(b, 4)
    &&& d.client_port == decoded_u16(b, 6)
    &&& d.uuid.is_some() == decoded_uuid(b).is_some()
    &&& d.uuid.is_some() ==> d.uuid.unwrap()@ == decoded_uuid(b).unwrap()
}

impl CData {
    pub open spec fn bytes(&self) -> Seq<u8> {
        cdata_bytes(self.peer_ip, self.peer_port, self.client_port, self.uuid)
    }

    /// The wire form of the payload.
    pub fn encode(&self) -> (r: Vec<u8>)
        ensures
            r@ == self.bytes(),
            r@.len() <= 33,
    {
        bincode_serialize(self.peer_ip, self.peer_port, self.client_port, self.uuid)
    }

    /// Reads a payload from the start of `b`; `None` when `b` does not start
    /// with a complete one.
    pub fn decode(b: &[u8]) -> (r: Option<CData>)
        ensures
            r.is_some() == cdata_decodable(b@),
            r.is_some() ==> decodes_to(b@, r.unwrap()),
    {
        bincode_deserialize(b)
    }
}

/// Relies on bincode::serialize (default options: fixed-width little-endian
/// integers, no size limit) on the tuple `((octets, port), client_port,
/// Option<Uuid>)`: an array is written element by element, an `Option` as a
/// tag byte 0 or 1 before its value, and a `Uuid` (through its serde support,
/// not human-readable) as a byte string, a u64 length then the 16 bytes.
/// Writing into a `Vec` with no limit does not fail.
#[verifier::external_body]
fn bincode_serialize(peer_ip: u32, peer_port: u16, client_port: u16, uuid: Option<[u8; 16]>) -> (r: Vec<u8>)
    ensures
        r@ == cdata_bytes(peer_ip, peer_port, client_port, uuid),
{
    let value = ((peer_ip.to_be_bytes(), peer_port), client_port, uuid.map(uuid::Uuid::from_bytes));
    bincode::serialize(&value).unwrap()
}

/// Relies on bincode::deserialize (default options, trailing bytes allowed)
/// into `(([u8; 4], u16), u16, Option<Uuid>)`: it fails when the bytes end
/// early, when the option tag is neither 0 nor 1, or when the uuid's length
/// prefix is not 16 (`Uuid::from_slice`).
#[verifier::external_body]
fn bincode_deserialize(b: &[u8]) -> (r: Option<CData>)
    ensures
        r.is_some() == cdata_decodable(b@),
        r.is_some() ==> decodes_to(b@, r.unwrap()),
{
    match bincode::deserialize::<(([u8; 4], u16), u16, Option<uuid::Uuid>)>(b) {
        Ok(((ip, peer_port), client_port, uuid)) => Some(CData {
            peer_ip: u32::from_be_bytes(ip),
            peer_port,
            client_port,
            uuid: uuid.map(uuid::Uuid::into_bytes),
        }),
        Err(_) => None,
    }
}

/// Relies on uuid::Uuid::new_v4: a random version-4 uuid, as its 16 bytes.
#[verifier::external_body]
pub(crate) fn new_uuid() -> (r: [u8; 16]) {
    uuid::Uuid::new_v4().into_bytes()
}

} // verus!
