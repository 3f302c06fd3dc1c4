//! The SOME/IP header and its bytes.

use vstd::prelude::*;

verus! {

/// The protocol version of every message.
pub const PROTOCOL_VERSION: u8 = 0x01;

/// The service identifier of service discovery.
pub const SD_SERVICE_ID: u16 = 0xFFFF;

/// The method identifier of service discovery.
pub const SD_METHOD_ID: u16 = 0x8100;

/// The number of bytes of a header.
pub const HEADER_SIZE: usize = 16;

/// `n` in network byte order.
pub open spec fn be16(n: u16) -> Seq<u8> {
    seq![(n / 256) as u8, (n % 256) as u8]
}

/// `n` in network byte order.
pub open spec fn be32(n: u32) -> Seq<u8> {
    seq![
        (n / 0x100_0000) as u8,
        (n / 0x1_0000 % 256) as u8,
        (n / 0x100 % 256) as u8,
        (n % 256) as u8,
    ]
}

/// The low 24 bits of `n` in network byte order.
pub open spec fn be24(n: u32) -> Seq<u8> {
    seq![(n / 0x1_0000 % 256) as u8, (n / 0x100 % 256) as u8, (n % 256) as u8]
}

/// The number at position `i`.
pub open spec fn at16(s: Seq<u8>, i: int) -> u16 {
    (s[i] * 256 + s[i + 1]) as u16
}

/// The number at position `i`.
pub open spec fn at24(s: Seq<u8>, i: int) -> u32 {
    (s[i] * 0x1_0000 + s[i + 1] * 0x100 + s[i + 2]) as u32
}

/// The number at position `i`.
pub open spec fn at32(s: Seq<u8>, i: int) -> u32 {
    (s[i] * 0x100_0000 + s[i + 1] * 0x1_0000 + s[i + 2] * 0x100 + s[i + 3]) as u32
}

/// Appends `n` in network byte order.
pub fn push16(out: &mut Vec<u8>, n: u16)
    ensures
        final(out)@ == old(out)@ + be16(n),
{
    out.push((n / 256) as u8);
    out.push((n % 256) as u8);
    assert(out@ =~= old(out)@ + be16(n));
}

/// Appends the low 24 bits of `n` in network byte order.
pub fn push24(out: &mut Vec<u8>, n: u32)
    ensures
        final(out)@ == old(out)@ + be24(n),
{
    out.push((n / 0x1_0000 % 256) as u8);
    out.push((n / 0x100 % 256) as u8);
    out.push((n % 256) as u8);
    assert(out@ =~= old(out)@ + be24(n));
}

/// Appends `n` in network byte order.
pub fn push32(out: &mut Vec<u8>, n: u32)
    ensures
        final(out)@ == old(out)@ + be32(n),
{
    out.push((n / 0x100_0000) as u8);
    out.push((n / 0x1_0000 % 256) as u8);
    out.push((n / 0x100 % 256) as u8);
    out.push((n % 256) as u8);
    assert(out@ =~= old(out)@ + be32(n));
}

/// Appends `data`.
pub fn push_all(out: &mut Vec<u8>, data: &[u8])
    ensures
        final(out)@ == old(out)@ + data@,
{
    let mut i: usize = 0;
    while i < data.len()
        invariant
            0 <= i <= data@.len(),
            out@ == old(out)@ + data@.take(i as int),
        decreases data@.len() - i,
    {
        proof {
            crate::rows::lemma_take_step(data@, i as int);
        }
        out.push(data[i]);
        i += 1;
        assert(out@ =~= old(out)@ + data@.take(i as int));
    }
    assert(data@.take(data@.len() as int) =~= data@);
}

/// Reads the number at position `i`.
pub fn read16(data: &[u8], i: usize) -> (r: u16)
    requires
        i + 2 <= data@.len(),
    ensures
        r == at16(data@, i as int),
{
    data[i] as u16 * 256 + data[i + 1] as u16
}

/// Reads the number at position `i`.
pub fn read24(data: &[u8], i: usize) -> (r: u32)
    requires
        i + 3 <= data@.len(),
    ensures
        r == at24(data@, i as int),
{
    data[i] as u32 * 0x1_0000 + data[i + 1] as u32 * 0x100 + data[i + 2] as u32
}

/// Reads the number at position `i`.
pub fn read32(data: &[u8], i: usize) -> (r: u32)
    requires
        i + 4 <= data@.len(),
    ensures
        r == at32(data@, i as int),
{
    data[i] as u32 * 0x100_0000 + data[i + 1] as u32 * 0x1_0000 + data[i + 2] as u32 * 0x100
        + data[i + 3] as u32
}

/// A number that stands at a position of the bytes reads back.
pub proof fn lemma_read_back16(s: Seq<u8>, i: int, n: u16)
    requires
        0 <= i,
        i + 2 <= s.len(),
        s.subrange(i, i + 2) == be16(n),
    ensures
        at16(s, i) == n,
{
    let t = s.subrange(i, i + 2);
    assert(t[0] == s[i] && t[1] == s[i + 1]);
}

/// A number that stands at a position of the bytes reads back.
pub proof fn lemma_read_back24(s: Seq<u8>, i: int, n: u32)
    requires
        0 <= i,
        i + 3 <= s.len(),
        s.subrange(i, i + 3) == be24(n),
        n <= 0xFF_FFFF,
    ensures
        at24(s, i) == n,
{
    let t = s.subrange(i, i + 3);
    assert(t[0] == s[i] && t[1] == s[i + 1] && t[2] == s[i + 2]);
    assert((n / 0x1_0000 % 256) * 0x1_0000 + (n / 0x100 % 256) * 0x100 + (n % 256) == n)
        by (nonlinear_arith)
        requires
            0 <= n <= 0xFF_FFFF,
    ;
}

/// A number that stands at a position of the bytes reads back.
pub proof fn lemma_read_back32(s: Seq<u8>, i: int, n: u32)
    requires
        0 <= i,
        i + 4 <= s.len(),
        s.subrange(i, i + 4) == be32(n),
    ensures
        at32(s, i) == n,
{
    let t = s.subrange(i, i + 4);
    assert(t[0] == s[i] && t[1] == s[i + 1] && t[2] == s[i + 2] && t[3] == s[i + 3]);
    assert((n / 0x100_0000) * 0x100_0000 + (n / 0x1_0000 % 256) * 0x1_0000 + (n / 0x100 % 256)
        * 0x100 + (n % 256) == n) by (nonlinear_arith)
        requires
            0 <= n <= 0xFFFF_FFFF,
    ;
}

/// A number that was read stands in the bytes.
pub proof fn lemma_write_back16(s: Seq<u8>, i: int)
    requires
        0 <= i,
        i + 2 <= s.len(),
    ensures
        s.subrange(i, i + 2) == be16(at16(s, i)),
{
    let x = s[i];
    let y = s[i + 1];
    assert((x * 256 + y) / 256 == x && (x * 256 + y) % 256 == y);
    assert(s.subrange(i, i + 2) =~= be16(at16(s, i)));
}

/// A number that was read stands in the bytes.
pub proof fn lemma_write_back32(s: Seq<u8>, i: int)
    requires
        0 <= i,
        i + 4 <= s.len(),
    ensures
        s.subrange(i, i + 4) == be32(at32(s, i)),
{
    let x = s[i] as u32;
    let y = s[i + 1] as u32;
    let z = s[i + 2] as u32;
    let w = s[i + 3] as u32;
    let n = at32(s, i);
    assert(n == x * 0x100_0000 + y * 0x1_0000 + z * 0x100 + w);
    assert(n / 0x100_0000 == x && n / 0x1_0000 % 256 == y && n / 0x100 % 256 == z && n % 256 == w)
        by (bit_vector)
        requires
            x < 256,
            y < 256,
            z < 256,
            w < 256,
            n == x * 0x100_0000 + y * 0x1_0000 + z * 0x100 + w,
    ;
    assert(s.subrange(i, i + 4) =~= be32(n));
}

/// What a message is.
#[derive(Clone, Copy, PartialEq, Eq, Structural, Debug)]
pub enum MessageType {
    /// A request that expects a response.
    Request,
    /// A request that expects none.
    RequestNoReturn,
    /// An event.
    Notification,
    /// A response.
    Response,
    /// A response that carries an error.
    Error,
    /// A segment of a request.
    TpRequest,
    /// A segment of a request without response.
    TpRequestNoReturn,
    /// A segment of an event.
    TpNotification,
    /// A segment of a response.
    TpResponse,
    /// A segment of an error response.
    TpError,
}

impl MessageType {
    /// The value on the wire.
    pub open spec fn raw(self) -> u8 {
        match self {
            MessageType::Request => 0x00,
            MessageType::RequestNoReturn => 0x01,
            MessageType::Notification => 0x02,
            MessageType::Response => 0x80,
            MessageType::Error => 0x81,
            MessageType::TpRequest => 0x20,
            MessageType::TpRequestNoReturn => 0x21,
            MessageType::TpNotification => 0x22,
            MessageType::TpResponse => 0xA0,
            MessageType::TpError => 0xA1,
        }
    }

    /// The message type of a value on the wire.
    pub open spec fn of_raw(raw: u8) -> Option<MessageType> {
        if raw == 0x00 {
            Some(MessageType::Request)
        } else if raw == 0x01 {
            Some(MessageType::RequestNoReturn)
        } else if raw == 0x02 {
            Some(MessageType::Notification)
        } else if raw == 0x80 {
            Some(MessageType::Response)
        } else if raw == 0x81 {
            Some(MessageType::Error)
        } else if raw == 0x20 {
            Some(MessageType::TpRequest)
        } else if raw == 0x21 {
            Some(MessageType::TpRequestNoReturn)
        } else if raw == 0x22 {
            Some(MessageType::TpNotification)
        } else if raw == 0xA0 {
            Some(MessageType::TpResponse)
        } else if raw == 0xA1 {
            Some(MessageType::TpError)
        } else {
            None
        }
    }

    /// The value on the wire.
    pub fn as_u8(&self) -> (r: u8)
        ensures
            r == self.raw(),
    {
        match self {
            MessageType::Request => 0x00,
            MessageType::RequestNoReturn => 0x01,
            MessageType::Notification => 0x02,
            MessageType::Response => 0x80,
            MessageType::Error => 0x81,
            MessageType::TpRequest => 0x20,
            MessageType::TpRequestNoReturn => 0x21,
            MessageType::TpNotification => 0x22,
            MessageType::TpResponse => 0xA0,
            MessageType::TpError => 0xA1,
        }
    }

    /// The message type of a value on the wire; `None` where it is not defined.
    pub fn from_u8(raw: u8) -> (r: Option<Self>)
        ensures
            r == Self::of_raw(raw),
    {
        match raw {
            0x00 => Some(MessageType::Request),
            0x01 => Some(MessageType::RequestNoReturn),
            0x02 => Some(MessageType::Notification),
            0x80 => Some(MessageType::Response),
            0x81 => Some(MessageType::Error),
            0x20 => Some(MessageType::TpRequest),
            0x21 => Some(MessageType::TpRequestNoReturn),
            0x22 => Some(MessageType::TpNotification),
            0xA0 => Some(MessageType::TpResponse),
            0xA1 => Some(MessageType::TpError),
            _ => None,
        }
    }
}

/// The header of every message.
#[derive(Clone, Copy, PartialEq, Eq, Structural, Debug)]
pub struct Header {
    /// The service.
    pub service_id: u16,
    /// The method or event.
    pub method_id: u16,
    /// The number of bytes behind this field.
    pub length: u32,
    /// The client.
    pub client_id: u16,
    /// The session.
    pub session_id: u16,
    /// The protocol version.
    pub protocol_version: u8,
    /// The interface version.
    pub interface_version: u8,
    /// What the message is.
    pub message_type: MessageType,
    /// The return code.
    pub return_code: u8,
}

impl Header {
    /// The bytes on the wire.
    pub open spec fn bytes(self) -> Seq<u8> {
        be16(self.service_id) + be16(self.method_id) + be32(self.length) + be16(self.client_id)
            + be16(self.session_id) + seq![
            self.protocol_version,
            self.interface_version,
            self.message_type.raw(),
            self.return_code,
        ]
    }

    /// The header at the start of the bytes.
    pub open spec fn parsed(s: Seq<u8>) -> Option<Header> {
        if s.len() < 16 {
            None
        } else {
            match MessageType::of_raw(s[14]) {
                Some(message_type) => Some(
                    Header {
                        service_id: at16(s, 0),
                        method_id: at16(s, 2),
                        length: at32(s, 4),
                        client_id: at16(s, 8),
                        session_id: at16(s, 10),
                        protocol_version: s[12],
                        interface_version: s[13],
                        message_type,
                        return_code: s[15],
                    },
                ),
                None => None,
            }
        }
    }

    /// The number of payload bytes that the header announces.
    pub open spec fn payload_len(self) -> int {
        if self.length < 8 {
            0
        } else {
            self.length - 8
        }
    }

    /// Reads the header at the start of the bytes; `None` where there are too few, or the
    /// message type is not defined.
    pub fn parse(data: &[u8]) -> (r: Option<Self>)
        ensures
            r == Self::parsed(data@),
    {
        if data.len() < HEADER_SIZE {
            return None;
        }
        match MessageType::from_u8(data[14]) {
            Some(message_type) => Some(
                Header {
                    service_id: read16(data, 0),
                    method_id: read16(data, 2),
                    length: read32(data, 4),
                    client_id: read16(data, 8),
                    session_id: read16(data, 10),
                    protocol_version: data[12],
                    interface_version: data[13],
                    message_type,
                    return_code: data[15],
                },
            ),
            None => None,
        }
    }

    /// Appends the bytes on the wire.
    pub fn serialize(&self, out: &mut Vec<u8>)
        ensures
            final(out)@ == old(out)@ + self.bytes(),
    {
        push16(out, self.service_id);
        push16(out, self.method_id);
        push32(out, self.length);
        push16(out, self.client_id);
        push16(out, self.session_id);
        out.push(self.protocol_version);
        out.push(self.interface_version);
        out.push(self.message_type.as_u8());
        out.push(self.return_code);
        assert(out@ =~= old(out)@ + self.bytes());
    }

    /// The number of payload bytes that the header announces.
    pub fn payload_length(&self) -> (r: usize)
        ensures
            r == self.payload_len(),
    {
        if self.length < 8 {
            0
        } else {
            (self.length - 8) as usize
        }
    }
}

/// A header that was written reads back, whatever follows it.
pub proof fn header_round_trip(h: Header, rest: Seq<u8>)
    ensures
        h.bytes().len() == 16,
        Header::parsed(h.bytes() + rest) == Some(h),
{
    let s = h.bytes() + rest;
    assert(s.subrange(0, 2) =~= be16(h.service_id));
    assert(s.subrange(2, 4) =~= be16(h.method_id));
    assert(s.subrange(4, 8) =~= be32(h.length));
    assert(s.subrange(8, 10) =~= be16(h.client_id));
    assert(s.subrange(10, 12) =~= be16(h.session_id));
    lemma_read_back16(s, 0, h.service_id);
    lemma_read_back16(s, 2, h.method_id);
    lemma_read_back32(s, 4, h.length);
    lemma_read_back16(s, 8, h.client_id);
    lemma_read_back16(s, 10, h.session_id);
    assert(s[12] == h.protocol_version);
    assert(s[13] == h.interface_version);
    assert(s[14] == h.message_type.raw());
    assert(s[15] == h.return_code);
}

/// Bytes that read as a header are the bytes of that header.
pub proof fn header_bytes_determined(s: Seq<u8>)
    requires
        Header::parsed(s) is Some,
    ensures
        s.take(16) == Header::parsed(s)->0.bytes(),
{
    let h = Header::parsed(s)->0;
    lemma_write_back16(s, 0);
    lemma_write_back16(s, 2);
    lemma_write_back32(s, 4);
    lemma_write_back16(s, 8);
    lemma_write_back16(s, 10);
    assert(h.message_type.raw() == s[14]);
    assert(s.take(16) =~= s.subrange(0, 2) + s.subrange(2, 4) + s.subrange(4, 8) + s.subrange(8, 10)
        + s.subrange(10, 12) + seq![s[12], s[13], s[14], s[15]]);
}

/// The message of no payload by which a TCP stream can be resynchronised.
pub open spec fn cookie(from_server: bool) -> Header {
    Header {
        service_id: 0xFFFF,
        method_id: if from_server {
            0x8000
        } else {
            0x0000
        },
        length: 8,
        client_id: 0xDEAD,
        session_id: 0xBEEF,
        protocol_version: 1,
        interface_version: 1,
        message_type: if from_server {
            MessageType::Notification
        } else {
            MessageType::RequestNoReturn
        },
        return_code: 0,
    }
}

/// The magic cookie of a server or a client.
pub fn magic_cookie(from_server: bool) -> (r: Vec<u8>)
    ensures
        r@ == cookie(from_server).bytes(),
{
    let header = Header {
        service_id: 0xFFFF,
        method_id: if from_server {
            0x8000
        } else {
            0x0000
        },
        length: 8,
        client_id: 0xDEAD,
        session_id: 0xBEEF,
        protocol_version: 1,
        interface_version: 1,
        message_type: if from_server {
            MessageType::Notification
        } else {
            MessageType::RequestNoReturn
        },
        return_code: 0,
    };
    let mut out: Vec<u8> = Vec::new();
    header.serialize(&mut out);
    assert(out@ =~= cookie(from_server).bytes());
    out
}

/// The number of bytes of the message at the start of a stream, once they are all there.
pub open spec fn first_message(s: Seq<u8>) -> Option<int> {
    if s.len() >= 8 && s.len() >= 8 + at32(s, 4) {
        Some(8 + at32(s, 4))
    } else {
        None
    }
}

/// The number of bytes of the message at the start of a stream; `None` while some are missing.
pub fn message_length(data: &[u8]) -> (r: Option<usize>)
    ensures
        match r {
            Some(n) => first_message(data@) == Some(n as int),
            None => first_message(data@) is None,
        },
{
    if data.len() < 8 {
        return None;
    }
    let behind: usize = read32(data, 4) as usize;
    if data.len() - 8 < behind {
        return None;
    }
    Some(8 + behind)
}

/// A message whose header gives its length right is cut off exactly, whatever follows it; cut
/// short, it is not taken for a message.
pub proof fn streams_are_cut_between_messages(h: Header, payload: Seq<u8>, rest: Seq<u8>, n: int)
    requires
        h.length == 8 + payload.len(),
        0 <= n < 16 + payload.len(),
    ensures
        first_message(h.bytes() + payload + rest) == Some(16 + payload.len() as int),
        first_message((h.bytes() + payload).take(n)) is None,
{
    header_round_trip(h, payload + rest);
    assert(h.bytes() + (payload + rest) =~= h.bytes() + payload + rest);
    if n >= 8 {
        let cut = (h.bytes() + payload).take(n);
        assert(cut.subrange(4, 8) =~= be32(h.length));
        lemma_read_back32(cut, 4, h.length);
    }
}

} // verus!
