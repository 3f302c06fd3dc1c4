//! Where everything stands in a message, byte by byte.

use crate::discovery::{
    entries_bytes, options_bytes, L4Protocol, SdEntry, SdEntryType, SdMessageView, SdOption,
};
use crate::wire::{be32, Header, MessageType};
use vstd::prelude::*;

verus! {

/// The number that two bytes hold, the higher one first.
pub open spec fn two_bytes(s: Seq<u8>, i: int) -> int {
    s[i] * 0x100 + s[i + 1]
}

/// The number that three bytes hold, the highest one first.
pub open spec fn three_bytes(s: Seq<u8>, i: int) -> int {
    s[i] * 0x1_0000 + two_bytes(s, i + 1)
}

/// The number that four bytes hold, the highest one first.
pub open spec fn four_bytes(s: Seq<u8>, i: int) -> int {
    two_bytes(s, i) * 0x1_0000 + two_bytes(s, i + 2)
}

/// A header takes 16 bytes: service, method, length, client, session, protocol version,
/// interface version, message type and return code, in this order.
pub proof fn where_a_header_stands(h: Header)
    ensures
        h.bytes().len() == 16,
        two_bytes(h.bytes(), 0) == h.service_id,
        two_bytes(h.bytes(), 2) == h.method_id,
        four_bytes(h.bytes(), 4) == h.length,
        two_bytes(h.bytes(), 8) == h.client_id,
        two_bytes(h.bytes(), 10) == h.session_id,
        h.bytes()[12] == h.protocol_version,
        h.bytes()[13] == h.interface_version,
        h.bytes()[14] == (match h.message_type {
            MessageType::Request => 0x00u8,
            MessageType::RequestNoReturn => 0x01,
            MessageType::Notification => 0x02,
            MessageType::TpRequest => 0x20,
            MessageType::TpRequestNoReturn => 0x21,
            MessageType::TpNotification => 0x22,
            MessageType::Response => 0x80,
            MessageType::Error => 0x81,
            MessageType::TpResponse => 0xA0,
            MessageType::TpError => 0xA1,
        }),
        h.bytes()[15] == h.return_code,
{
}

/// An entry takes 16 bytes: its type, the two option indexes, the two option counts in one byte,
/// service, instance, major version and lifetime, and then, depending on the type, the minor
/// version or the counter and the eventgroup.
pub proof fn where_an_entry_stands(e: SdEntry)
    requires
        e.encodable(),
    ensures
        e.bytes().len() == 16,
        e.bytes()[0] == (match e.entry_type {
            SdEntryType::FindService => 0x00u8,
            SdEntryType::OfferService => 0x01,
            SdEntryType::SubscribeEventgroup => 0x06,
            SdEntryType::SubscribeEventgroupAck => 0x07,
        }),
        e.bytes()[1] == e.index_1st_option,
        e.bytes()[2] == e.index_2nd_option,
        e.bytes()[3] == e.num_options_1 * 16 + e.num_options_2,
        two_bytes(e.bytes(), 4) == e.service_id,
        two_bytes(e.bytes(), 6) == e.instance_id,
        e.bytes()[8] == e.major_version,
        three_bytes(e.bytes(), 9) == e.ttl,
        e.entry_type is FindService || e.entry_type is OfferService ==> four_bytes(e.bytes(), 12)
            == e.minor_version,
        e.entry_type is SubscribeEventgroup || e.entry_type is SubscribeEventgroupAck ==> {
            &&& e.bytes()[12] == 0
            &&& e.bytes()[13] == e.counter
            &&& two_bytes(e.bytes(), 14) == e.eventgroup_id
        },
{
}

/// An endpoint option takes 12 bytes: its length without the first three, its type, the address,
/// the protocol and the port.
pub proof fn where_an_endpoint_stands(o: SdOption)
    requires
        o is Ipv4Endpoint,
    ensures
        ({
            let b = o.bytes();
            &&& b.len() == 12
            &&& two_bytes(b, 0) == 9
            &&& b[2] == 0x04
            &&& o matches SdOption::Ipv4Endpoint { addr, port, protocol } && (b[4], b[5], b[6], b[7])
                == (addr.a, addr.b, addr.c, addr.d) && b[9] == (match protocol {
                L4Protocol::Tcp => 0x06u8,
                L4Protocol::Udp => 0x11,
            }) && two_bytes(b, 10) == port
        }),
{
}

proof fn lemma_entries_in_order(entries: Seq<SdEntry>, i: int)
    requires
        0 <= i < entries.len(),
    ensures
        entries_bytes(entries).len() == 16 * entries.len(),
        entries_bytes(entries).subrange(16 * i, 16 * i + 16) == entries[i].bytes(),
    decreases entries.len(),
{
    let fewer = entries.drop_last();
    lemma_entries_size(fewer);
    let before = entries_bytes(fewer);
    let last = entries.last().bytes();
    assert(last.len() == 16);
    let all = entries_bytes(entries);
    assert(all == before + last);
    if i < fewer.len() {
        lemma_entries_in_order(fewer, i);
        assert(all.subrange(16 * i, 16 * i + 16) =~= before.subrange(16 * i, 16 * i + 16));
        assert(fewer[i] == entries[i]);
    } else {
        assert(all.subrange(16 * i, 16 * i + 16) =~= last);
    }
}

proof fn lemma_entries_size(entries: Seq<SdEntry>)
    ensures
        entries_bytes(entries).len() == 16 * entries.len(),
    decreases entries.len(),
{
    if entries.len() > 0 {
        lemma_entries_size(entries.drop_last());
        assert(entries.last().bytes().len() == 16);
    }
}

/// Four bytes hold a number as it was written.
proof fn lemma_four_bytes(n: u32)
    ensures
        be32(n).len() == 4,
        four_bytes(be32(n), 0) == n,
{
}

/// What two lengths and two contents make.
proof fn lemma_framed(a: Seq<u8>, e: Seq<u8>, x: Seq<u8>, o: Seq<u8>, y: Seq<u8>)
    requires
        a.len() == 4,
        x.len() == 4,
        y.len() == 4,
    ensures
        ({
            let b = a + x + e + y + o;
            let n = e.len() as int;
            &&& b.len() == 12 + n + o.len()
            &&& b.subrange(0, 4) == a
            &&& four_bytes(b, 4) == four_bytes(x, 0)
            &&& b.subrange(8, 8 + n) == e
            &&& four_bytes(b, 8 + n) == four_bytes(y, 0)
            &&& b.subrange(12 + n, b.len() as int) == o
        }),
{
    let b = a + x + e + y + o;
    let n = e.len() as int;
    assert(b.subrange(0, 4) =~= a);
    assert(b.subrange(8, 8 + n) =~= e);
    assert(b.subrange(12 + n, b.len() as int) =~= o);
    assert(b[4] == x[0] && b[5] == x[1] && b[6] == x[2] && b[7] == x[3]);
    assert(b[8 + n] == y[0] && b[9 + n] == y[1] && b[10 + n] == y[2] && b[11 + n] == y[3]);
}

proof fn lemma_payload_framed(m: SdMessageView)
    requires
        m.payload().len() <= u32::MAX,
    ensures
        ({
            let b = m.payload();
            let e = entries_bytes(m.entries);
            let o = options_bytes(m.options);
            let n = e.len() as int;
            &&& b.len() == 12 + n + o.len()
            &&& b.subrange(0, 4) == seq![m.flags, 0u8, 0u8, 0u8]
            &&& four_bytes(b, 4) == n
            &&& b.subrange(8, 8 + n) == e
            &&& four_bytes(b, 8 + n) == o.len()
            &&& b.subrange(12 + n, b.len() as int) == o
        }),
{
    let b = m.payload();
    let e = entries_bytes(m.entries);
    let o = options_bytes(m.options);
    let a = seq![m.flags, 0u8, 0u8, 0u8];
    let x = (e.len() % 0x1_0000_0000) as u32;
    let y = (o.len() % 0x1_0000_0000) as u32;
    assert(b == a + be32(x) + e + be32(y) + o) by {
        reveal(SdMessageView::payload);
    }
    lemma_four_bytes(x);
    lemma_four_bytes(y);
    lemma_framed(a, e, be32(x), o, be32(y));
}

/// The payload of a discovery message: the flags and three bytes that are 0, the length of the
/// entries, the entries in their order, the length of the options, and the options.
pub proof fn where_a_discovery_message_stands(m: SdMessageView, i: int)
    requires
        m.encodable(),
        0 <= i < m.entries.len(),
    ensures
        ({
            let b = m.payload();
            let n = 16 * m.entries.len() as int;
            &&& b[0] == m.flags
            &&& b[1] == 0 && b[2] == 0 && b[3] == 0
            &&& four_bytes(b, 4) == n
            &&& b.subrange(8 + 16 * i, 24 + 16 * i) == m.entries[i].bytes()
            &&& four_bytes(b, 8 + n) == b.len() - 12 - n
            &&& b.subrange(12 + n, b.len() as int) == options_bytes(m.options)
        }),
{
    let b = m.payload();
    let n = 16 * m.entries.len() as int;
    lemma_entries_in_order(m.entries, i);
    lemma_payload_framed(m);
    let first = b.subrange(0, 4);
    assert(b[0] == first[0] && b[1] == first[1] && b[2] == first[2] && b[3] == first[3]);
    let mid = b.subrange(8, 8 + n);
    assert(b.subrange(8 + 16 * i, 24 + 16 * i) =~= mid.subrange(16 * i, 16 * i + 16));
}

/// The options of a message stand in their order, one right behind the other.
pub proof fn where_options_stand(options: Seq<SdOption>, more: Seq<SdOption>)
    ensures
        options_bytes(options + more) == options_bytes(options) + options_bytes(more),
        options_bytes(Seq::empty()).len() == 0,
    decreases more.len(),
{
    let all = options + more;
    if more.len() > 0 {
        let fewer = more.drop_last();
        where_options_stand(options, fewer);
        assert(all.drop_last() =~= options + fewer);
        assert(all.last() == more.last());
        assert(options_bytes(all) =~= options_bytes(options) + options_bytes(more));
    } else {
        assert(all =~= options);
        assert(options_bytes(all) =~= options_bytes(options) + options_bytes(more));
    }
}

/// A discovery message goes out as an event of the discovery service: service 0xFFFF, method
/// 0x8100, protocol and interface version 1, under its session.
pub proof fn how_a_discovery_message_is_headed(m: SdMessageView, session_id: u16)
    requires
        m.encodable(),
    ensures
        ({
            let h = m.header(session_id);
            &&& m.bytes(session_id) == h.bytes() + m.payload()
            &&& h.service_id == 0xFFFF
            &&& h.method_id == 0x8100
            &&& h.length == m.payload().len() + 8
            &&& h.client_id == 0
            &&& h.session_id == session_id
            &&& h.protocol_version == 1
            &&& h.interface_version == 1
            &&& h.message_type is Notification
            &&& h.return_code == 0
        }),
{
}

} // verus!
