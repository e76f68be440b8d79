//! The GTP-U header codec: an 8-octet fixed header followed by the payload.

use vstd::prelude::*;

verus! {

/// Number of octets in the fixed header.
pub const HEADER_LEN: usize = 8;

/// First header octet: version 1, protocol type GTP, no optional fields.
pub const FLAGS: u8 = 0x30;

/// Second header octet: the T-PDU message type, which carries user data.
pub const MESSAGE_TYPE: u8 = 0xFF;

/// The value of the 16-bit length field for a payload of `payload_len`
/// octets: the length, reduced modulo 2^16.
pub open spec fn length_field(payload_len: nat) -> u16 {
    (payload_len % 0x1_0000) as u16
}

/// The big-endian value of two octets.
pub open spec fn be_u16(hi: u8, lo: u8) -> u16 {
    (hi * 0x100 + lo) as u16
}

/// The big-endian value of four octets.
pub open spec fn be_u32(b0: u8, b1: u8, b2: u8, b3: u8) -> u32 {
    (b0 * 0x100_0000 + b1 * 0x1_0000 + b2 * 0x100 + b3) as u32
}

/// The eight header octets that announce `length` payload octets in tunnel
/// `teid`.
pub open spec fn header_bytes(length: u16, teid: u32) -> Seq<u8> {
    seq![
        FLAGS,
        MESSAGE_TYPE,
        (length / 0x100) as u8,
        (length % 0x100) as u8,
        (teid / 0x100_0000) as u8,
        (teid / 0x1_0000 % 0x100) as u8,
        (teid / 0x100 % 0x100) as u8,
        (teid % 0x100) as u8,
    ]
}

/// A packet as a mathematical value: the tunnel it belongs to and the
/// payload it carries. The other header fields follow from these two.
pub struct GtpPacket {
    pub teid: u32,
    pub payload: Seq<u8>,
}

impl GtpPacket {
    /// The value of the header's length field.
    pub open spec fn length(self) -> u16 {
        length_field(self.payload.len())
    }

    /// The packet on the wire: header, then payload.
    pub open spec fn wire(self) -> Seq<u8> {
        header_bytes(self.length(), self.teid) + self.payload
    }

    /// The packet that a datagram holds when its boundary is trusted: the
    /// tunnel identifier from octets 4 to 7, and everything after the header
    /// as payload. A datagram shorter than the header holds none.
    pub open spec fn parse(bytes: Seq<u8>) -> Option<GtpPacket> {
        if bytes.len() < HEADER_LEN {
            None
        } else {
            Some(
                GtpPacket {
                    teid: be_u32(bytes[4], bytes[5], bytes[6], bytes[7]),
                    payload: bytes.skip(HEADER_LEN as int),
                },
            )
        }
    }
}

/// The payload length that the header of a datagram announces.
pub open spec fn declared_length(bytes: Seq<u8>) -> u16
    recommends
        bytes.len() >= HEADER_LEN,
{
    be_u16(bytes[2], bytes[3])
}

/// Why a datagram was not accepted as a packet.
#[derive(Clone, Copy, Debug, PartialEq, Eq)]
pub enum GtpError {
    /// The datagram is shorter than the fixed header.
    MalformedPacket,
    /// The header announces a payload length other than the one received.
    LengthMismatch,
}

/// How far decoding trusts the header's length field.
#[derive(Clone, Copy, Debug, PartialEq, Eq)]
pub enum LengthPolicy {
    /// The datagram boundary delimits the payload; the length field is not
    /// looked at.
    TrustDatagram,
    /// The length field must equal the number of octets after the header.
    RequireMatch,
}

/// What decoding a datagram under a policy yields.
pub open spec fn decoded(bytes: Seq<u8>, policy: LengthPolicy) -> Result<GtpPacket, GtpError> {
    if bytes.len() < HEADER_LEN {
        Err(GtpError::MalformedPacket)
    } else if policy is RequireMatch && declared_length(bytes) != bytes.len() - HEADER_LEN {
        Err(GtpError::LengthMismatch)
    } else {
        Ok(GtpPacket::parse(bytes)->0)
    }
}

/// What the result of a decoding call stands for: the packet, or the reason
/// why there is none.
pub open spec fn outcome(result: Result<(u32, Vec<u8>), GtpError>) -> Result<GtpPacket, GtpError> {
    match result {
        Ok(pair) => Ok(GtpPacket { teid: pair.0, payload: pair.1@ }),
        Err(e) => Err(e),
    }
}

/// A GTP-U version 1 packet that carries user data.
pub struct GtpV1 {
    length: u16,
    teid: u32,
    data: Vec<u8>,
}

impl View for GtpV1 {
    type V = GtpPacket;

    closed spec fn view(&self) -> GtpPacket {
        GtpPacket { teid: self.teid, payload: self.data@ }
    }
}

impl GtpV1 {
    /// The length field always announces the payload held, modulo 2^16.
    #[verifier::type_invariant]
    spec fn length_announces_payload(self) -> bool {
        self.length == length_field(self.data@.len())
    }

    /// Wraps `data` as the payload of a packet for tunnel `teid`.
    pub fn init(data: Vec<u8>, teid: u32) -> (packet: GtpV1)
        ensures
            packet@ == (GtpPacket { teid, payload: data@ }),
    {
        let length: u16 = truncated_length(data.len());
        GtpV1 { length, teid, data }
    }

    /// Reads a packet out of a received datagram, trusting the datagram
    /// boundary. Only a datagram shorter than the header is refused.
    pub fn from_gtp(data: &[u8]) -> (result: Result<GtpV1, GtpError>)
        ensures
            result is Ok <==> data@.len() >= HEADER_LEN,
            result matches Ok(packet) ==> GtpPacket::parse(data@) == Some(packet@),
            result matches Err(e) ==> e == GtpError::MalformedPacket,
    {
        if data.len() < HEADER_LEN {
            return Err(GtpError::MalformedPacket);
        }
        let (header, rest) = data.split_at(HEADER_LEN);
        let payload: Vec<u8> = vstd::slice::slice_to_vec(rest);
        let b0: u8 = header[4];
        let b1: u8 = header[5];
        let b2: u8 = header[6];
        let b3: u8 = header[7];
        let teid: u32 = (b0 as u32) << 24 | (b1 as u32) << 16 | (b2 as u32) << 8 | (b3 as u32);
        assert(teid == be_u32(b0, b1, b2, b3)) by {
            assert(((b0 as u32) << 24 | (b1 as u32) << 16 | (b2 as u32) << 8 | (b3 as u32)) == (b0
                * 0x100_0000 + b1 * 0x1_0000 + b2 * 0x100 + b3) as u32) by (bit_vector);
        }
        let length: u16 = truncated_length(payload.len());
        Ok(GtpV1 { length, teid, data: payload })
    }

    /// The payload.
    pub fn get_data(&self) -> (data: &[u8])
        ensures
            data@ == self@.payload,
    {
        self.data.as_slice()
    }

    /// The tunnel endpoint identifier.
    pub fn get_teid(&self) -> (teid: u32)
        ensures
            teid == self@.teid,
    {
        self.teid
    }

    /// Writes the packet as it goes on the wire. The packet itself is left as
    /// it was.
    pub fn serialize(&mut self) -> (packet: Vec<u8>)
        ensures
            *final(self) == *old(self),
            packet@ == old(self)@.wire(),
    {
        proof {
            use_type_invariant(&*self);
        }
        let length: u16 = self.length;
        let teid: u32 = self.teid;
        let mut packet: Vec<u8> = Vec::new();
        packet.push(FLAGS);
        packet.push(MESSAGE_TYPE);
        packet.push((length >> 8) as u8);
        packet.push(#[verifier::truncate] (length as u8));
        packet.push((teid >> 24) as u8);
        packet.push(#[verifier::truncate] ((teid >> 16) as u8));
        packet.push(#[verifier::truncate] ((teid >> 8) as u8));
        packet.push(#[verifier::truncate] (teid as u8));
        assert(packet@ == header_bytes(length, teid)) by {
            assert((length >> 8) as u8 == (length / 0x100) as u8) by (bit_vector);
            assert(length as u8 == (length % 0x100) as u8) by (bit_vector);
            assert((teid >> 24) as u8 == (teid / 0x100_0000) as u8) by (bit_vector);
            assert((teid >> 16) as u8 == (teid / 0x1_0000 % 0x100) as u8) by (bit_vector);
            assert((teid >> 8) as u8 == (teid / 0x100 % 0x100) as u8) by (bit_vector);
            assert(teid as u8 == (teid % 0x100) as u8) by (bit_vector);
        }
        packet.extend_from_slice(self.data.as_slice());
        assert(packet@ == header_bytes(length, teid) + self.data@);
        packet
    }
}

/// Encapsulates `payload` for tunnel `teid`: the header, then the payload
/// unchanged. A payload of 2^16 octets or more is not refused; its length
/// field wraps around.
pub fn encode(payload: &[u8], teid: u32) -> (packet: Vec<u8>)
    ensures
        packet@ == (GtpPacket { teid, payload: payload@ }).wire(),
        packet@.len() == HEADER_LEN + payload@.len(),
        packet@[0] == FLAGS,
        packet@[1] == MESSAGE_TYPE,
        be_u16(packet@[2], packet@[3]) == payload@.len() % 0x1_0000,
        be_u32(packet@[4], packet@[5], packet@[6], packet@[7]) == teid,
        packet@.skip(HEADER_LEN as int) == payload@,
{
    let mut outgoing: GtpV1 = GtpV1::init(vstd::slice::slice_to_vec(payload), teid);
    let packet: Vec<u8> = outgoing.serialize();
    proof {
        lemma_header_shape(payload@, teid);
    }
    packet
}

/// Decapsulates a datagram, trusting the datagram boundary: the tunnel
/// identifier and everything after the header. Neither the flags, nor the
/// message type, nor the length field are looked at.
pub fn decode(bytes: &[u8]) -> (result: Result<(u32, Vec<u8>), GtpError>)
    ensures
        result is Err <==> bytes@.len() < HEADER_LEN,
        result matches Err(e) ==> e == GtpError::MalformedPacket,
        result matches Ok(pair) ==> pair.0 == be_u32(bytes@[4], bytes@[5], bytes@[6], bytes@[7])
            && pair.1@ == bytes@.skip(HEADER_LEN as int),
        outcome(result) == decoded(bytes@, LengthPolicy::TrustDatagram),
{
    decode_with(bytes, LengthPolicy::TrustDatagram)
}

/// Decapsulates a datagram under a length policy. Under
/// [`LengthPolicy::RequireMatch`] a datagram whose length field differs from
/// the number of octets after the header is refused as well.
pub fn decode_with(bytes: &[u8], policy: LengthPolicy) -> (result: Result<(u32, Vec<u8>), GtpError>)
    ensures
        outcome(result) == decoded(bytes@, policy),
{
    if bytes.len() < HEADER_LEN {
        return Err(GtpError::MalformedPacket);
    }
    if let LengthPolicy::RequireMatch = policy {
        let hi: u8 = bytes[2];
        let lo: u8 = bytes[3];
        let declared: u16 = (hi as u16) << 8 | (lo as u16);
        assert(declared == be_u16(hi, lo)) by {
            assert(((hi as u16) << 8 | (lo as u16)) == (hi * 0x100 + lo) as u16) by (bit_vector);
        }
        if declared as usize != bytes.len() - HEADER_LEN {
            return Err(GtpError::LengthMismatch);
        }
    }
    match GtpV1::from_gtp(bytes) {
        Ok(packet) => Ok((packet.teid, packet.data)),
        Err(e) => Err(e),
    }
}

/// The shape of an encoded packet: the two constant octets, the payload
/// length modulo 2^16 and the tunnel identifier in big-endian order, then the
/// payload unchanged.
pub proof fn lemma_header_shape(payload: Seq<u8>, teid: u32)
    ensures
        ({
            let packet = (GtpPacket { teid, payload }).wire();
            &&& packet.len() == HEADER_LEN + payload.len()
            &&& packet[0] == FLAGS
            &&& packet[1] == MESSAGE_TYPE
            &&& be_u16(packet[2], packet[3]) == payload.len() % 0x1_0000
            &&& declared_length(packet) == payload.len() % 0x1_0000
            &&& be_u32(packet[4], packet[5], packet[6], packet[7]) == teid
            &&& packet.skip(HEADER_LEN as int) == payload
        }),
{
    let packet = (GtpPacket { teid, payload }).wire();
    assert(packet.skip(HEADER_LEN as int) =~= payload);
}

/// Decoding what was encoded gives back the tunnel identifier and the
/// payload. When the datagram boundary is trusted this holds of every
/// payload; when the length field must match, of every payload that the
/// field can announce, that is of at most 65535 octets.
pub proof fn lemma_decode_encode_roundtrip(payload: Seq<u8>, teid: u32, policy: LengthPolicy)
    requires
        policy is RequireMatch ==> payload.len() <= 0xFFFF,
    ensures
        decoded((GtpPacket { teid, payload }).wire(), policy) == Ok::<GtpPacket, GtpError>(
            GtpPacket { teid, payload },
        ),
        GtpPacket::parse((GtpPacket { teid, payload }).wire()) == Some(GtpPacket { teid, payload }),
{
    lemma_header_shape(payload, teid);
}

/// A datagram is refused as malformed exactly when it is shorter than the
/// header, whatever the policy.
pub proof fn lemma_short_datagram_is_malformed(bytes: Seq<u8>, policy: LengthPolicy)
    ensures
        decoded(bytes, policy) == Err::<GtpPacket, GtpError>(GtpError::MalformedPacket)
            <==> bytes.len() < HEADER_LEN,
        GtpPacket::parse(bytes) is None <==> bytes.len() < HEADER_LEN,
{
}

/// The length of a payload as the 16-bit length field holds it: lengths of
/// 2^16 and more wrap around.
fn truncated_length(len: usize) -> (length: u16)
    ensures
        length == length_field(len as nat),
{
    assert(len as u16 == (len % 0x1_0000) as u16) by (bit_vector);
    #[verifier::truncate]
    (len as u16)
}

} // verus!
