//! The messages of requests, responses and events.

use crate::buffer::{content, extend_from_slice, freeze, with_capacity, written};
use crate::wire::{Header, MessageType, HEADER_SIZE, PROTOCOL_VERSION};
use vstd::prelude::*;

verus! {

/// A payload of `n` bytes can be sent: the message fits in memory, and its length in the
/// length field.
pub open spec fn payload_fits(n: int) -> bool {
    n + 16 <= isize::MAX && n % 0x1_0000_0000 + 8 <= u32::MAX
}

/// Whether a payload can be sent.
pub fn can_be_sent(payload: &bytes::Bytes) -> (r: bool)
    ensures
        r == payload_fits(content(*payload).len() as int),
{
    let n: usize = crate::buffer::as_slice(payload).len();
    n <= isize::MAX as usize && n <= isize::MAX as usize - 16 && n as u64 % 0x1_0000_0000
        <= 0xFFFF_FFF7
}

/// The header of a message with a payload of `n` bytes.
pub open spec fn rpc_header(
    service_id: u16,
    method_id: u16,
    client_id: u16,
    session_id: u16,
    interface_version: u8,
    message_type: MessageType,
    return_code: u8,
    n: int,
) -> Header {
    Header {
        service_id,
        method_id,
        length: (8 + n % 0x1_0000_0000) as u32,
        client_id,
        session_id,
        protocol_version: PROTOCOL_VERSION,
        interface_version,
        message_type,
        return_code,
    }
}

/// A request.
pub open spec fn request_bytes(
    service_id: u16,
    method_id: u16,
    client_id: u16,
    session_id: u16,
    interface_version: u8,
    payload: Seq<u8>,
) -> Seq<u8> {
    rpc_header(
        service_id,
        method_id,
        client_id,
        session_id,
        interface_version,
        MessageType::Request,
        0,
        payload.len() as int,
    ).bytes() + payload
}

/// A request that expects no response.
pub open spec fn fire_and_forget_bytes(
    service_id: u16,
    method_id: u16,
    client_id: u16,
    session_id: u16,
    interface_version: u8,
    payload: Seq<u8>,
) -> Seq<u8> {
    rpc_header(
        service_id,
        method_id,
        client_id,
        session_id,
        interface_version,
        MessageType::RequestNoReturn,
        0,
        payload.len() as int,
    ).bytes() + payload
}

/// The type of a response: an exception only for an error, and only where the method is
/// set to use it.
pub open spec fn response_type(return_code: u8, uses_exception: bool) -> MessageType {
    if return_code != 0 && uses_exception {
        MessageType::Error
    } else {
        MessageType::Response
    }
}

/// A response.
pub open spec fn response_bytes(
    service_id: u16,
    method_id: u16,
    client_id: u16,
    session_id: u16,
    interface_version: u8,
    return_code: u8,
    payload: Seq<u8>,
    uses_exception: bool,
) -> Seq<u8> {
    rpc_header(
        service_id,
        method_id,
        client_id,
        session_id,
        interface_version,
        response_type(return_code, uses_exception),
        return_code,
        payload.len() as int,
    ).bytes() + payload
}

/// An event.
pub open spec fn notification_bytes(
    service_id: u16,
    event_id: u16,
    client_id: u16,
    session_id: u16,
    interface_version: u8,
    payload: Seq<u8>,
) -> Seq<u8> {
    rpc_header(
        service_id,
        event_id,
        client_id,
        session_id,
        interface_version,
        MessageType::Notification,
        0,
        payload.len() as int,
    ).bytes() + payload
}

fn build_message(
    service_id: u16,
    method_id: u16,
    client_id: u16,
    session_id: u16,
    interface_version: u8,
    message_type: MessageType,
    return_code: u8,
    payload: &[u8],
) -> (r: bytes::Bytes)
    requires
        payload_fits(payload@.len() as int),
    ensures
        content(r) == rpc_header(
            service_id,
            method_id,
            client_id,
            session_id,
            interface_version,
            message_type,
            return_code,
            payload@.len() as int,
        ).bytes() + payload@,
{
    let length: u32 = 8 + (payload.len() as u64 % 0x1_0000_0000) as u32;
    let header = Header {
        service_id,
        method_id,
        length,
        client_id,
        session_id,
        protocol_version: PROTOCOL_VERSION,
        interface_version,
        message_type,
        return_code,
    };
    let mut head: Vec<u8> = Vec::new();
    header.serialize(&mut head);
    proof {
        crate::wire::header_round_trip(header, payload@);
        assert(head@ =~= header.bytes());
    }
    let mut buf = with_capacity(HEADER_SIZE + payload.len());
    extend_from_slice(&mut buf, head.as_slice());
    extend_from_slice(&mut buf, payload);
    assert(written(buf) =~= header.bytes() + payload@);
    freeze(buf)
}

/// A request.
pub fn build_request(
    service_id: u16,
    method_id: u16,
    client_id: u16,
    session_id: u16,
    interface_version: u8,
    payload: &[u8],
) -> (r: bytes::Bytes)
    requires
        payload_fits(payload@.len() as int),
    ensures
        content(r) == request_bytes(
            service_id,
            method_id,
            client_id,
            session_id,
            interface_version,
            payload@,
        ),
{
    build_message(
        service_id,
        method_id,
        client_id,
        session_id,
        interface_version,
        MessageType::Request,
        0x00,
        payload,
    )
}

/// A request that expects no response.
pub fn build_fire_and_forget(
    service_id: u16,
    method_id: u16,
    client_id: u16,
    session_id: u16,
    interface_version: u8,
    payload: &[u8],
) -> (r: bytes::Bytes)
    requires
        payload_fits(payload@.len() as int),
    ensures
        content(r) == fire_and_forget_bytes(
            service_id,
            method_id,
            client_id,
            session_id,
            interface_version,
            payload@,
        ),
{
    build_message(
        service_id,
        method_id,
        client_id,
        session_id,
        interface_version,
        MessageType::RequestNoReturn,
        0x00,
        payload,
    )
}

/// A response.
pub fn build_response(
    service_id: u16,
    method_id: u16,
    client_id: u16,
    session_id: u16,
    interface_version: u8,
    return_code: u8,
    payload: &[u8],
    uses_exception: bool,
) -> (r: bytes::Bytes)
    requires
        payload_fits(payload@.len() as int),
    ensures
        content(r) == response_bytes(
            service_id,
            method_id,
            client_id,
            session_id,
            interface_version,
            return_code,
            payload@,
            uses_exception,
        ),
{
    let message_type = if return_code != 0x00 && uses_exception {
        MessageType::Error
    } else {
        MessageType::Response
    };
    build_message(
        service_id,
        method_id,
        client_id,
        session_id,
        interface_version,
        message_type,
        return_code,
        payload,
    )
}

/// An event.
pub fn build_notification(
    service_id: u16,
    event_id: u16,
    client_id: u16,
    session_id: u16,
    interface_version: u8,
    payload: &[u8],
) -> (r: bytes::Bytes)
    requires
        payload_fits(payload@.len() as int),
    ensures
        content(r) == notification_bytes(
            service_id,
            event_id,
            client_id,
            session_id,
            interface_version,
            payload@,
        ),
{
    build_message(
        service_id,
        event_id,
        client_id,
        session_id,
        interface_version,
        MessageType::Notification,
        0x00,
        payload,
    )
}

/// A message reads back as its header and payload, and the header announces the payload's
/// length.
pub proof fn message_round_trip(h: Header, payload: Seq<u8>)
    requires
        payload.len() + 8 <= u32::MAX,
        h == rpc_header(
            h.service_id,
            h.method_id,
            h.client_id,
            h.session_id,
            h.interface_version,
            h.message_type,
            h.return_code,
            payload.len() as int,
        ),
    ensures
        Header::parsed(h.bytes() + payload) == Some(h),
        (h.bytes() + payload).skip(16) == payload,
        h.payload_len() == payload.len(),
{
    crate::wire::header_round_trip(h, payload);
    assert((h.bytes() + payload).skip(16) =~= payload);
}

/// A response carries the identifiers of the request that it answers, so that its sender
/// finds the call; it is an exception exactly where the return code is an error and the
/// method is set to use exceptions.
pub proof fn response_echoes_request(
    request: Header,
    return_code: u8,
    payload: Seq<u8>,
    uses_exception: bool,
)
    requires
        payload.len() + 8 <= u32::MAX,
    ensures
        ({
            let s = response_bytes(
                request.service_id,
                request.method_id,
                request.client_id,
                request.session_id,
                request.interface_version,
                return_code,
                payload,
                uses_exception,
            );
            &&& Header::parsed(s) matches Some(h)
            &&& h.service_id == request.service_id
            &&& h.method_id == request.method_id
            &&& h.client_id == request.client_id
            &&& h.session_id == request.session_id
            &&& h.interface_version == request.interface_version
            &&& h.protocol_version == PROTOCOL_VERSION
            &&& h.return_code == return_code
            &&& h.message_type == MessageType::Error <==> return_code != 0 && uses_exception
            &&& h.message_type == MessageType::Response <==> return_code == 0 || !uses_exception
            &&& s.skip(16) == payload
        }),
{
    let h = rpc_header(
        request.service_id,
        request.method_id,
        request.client_id,
        request.session_id,
        request.interface_version,
        response_type(return_code, uses_exception),
        return_code,
        payload.len() as int,
    );
    message_round_trip(h, payload);
}

} // verus!
