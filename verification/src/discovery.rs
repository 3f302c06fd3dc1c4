//! Service discovery messages: entries, options and their bytes.

use crate::net::{IpAddr, Ipv4Addr, SocketAddr};
use crate::wire::{
    at16, at24, at32, be16, be24, be32, push16, push24, push32, push_all, read16, read24, read32,
    Header, MessageType, PROTOCOL_VERSION, SD_METHOD_ID, SD_SERVICE_ID,
};
use vstd::prelude::*;
use vstd::slice::slice_subrange;

verus! {

/// The sender has rebooted since its session counter last wrapped.
pub const FLAG_REBOOT: u8 = 0x80;

/// The message uses the session counter of the unicast channel.
pub const FLAG_UNICAST: u8 = 0x40;

/// What an entry is.
#[derive(Clone, Copy, PartialEq, Eq, Structural, Debug)]
pub enum SdEntryType {
    /// A search for a service.
    FindService,
    /// An offer of a service.
    OfferService,
    /// A subscription to an eventgroup.
    SubscribeEventgroup,
    /// The answer to a subscription.
    SubscribeEventgroupAck,
}

impl SdEntryType {
    /// The value on the wire.
    pub open spec fn raw(self) -> u8 {
        match self {
            SdEntryType::FindService => 0x00,
            SdEntryType::OfferService => 0x01,
            SdEntryType::SubscribeEventgroup => 0x06,
            SdEntryType::SubscribeEventgroupAck => 0x07,
        }
    }

    /// The entry type of a value on the wire.
    pub open spec fn of_raw(raw: u8) -> Option<SdEntryType> {
        if raw == 0x00 {
            Some(SdEntryType::FindService)
        } else if raw == 0x01 {
            Some(SdEntryType::OfferService)
        } else if raw == 0x06 {
            Some(SdEntryType::SubscribeEventgroup)
        } else if raw == 0x07 {
            Some(SdEntryType::SubscribeEventgroupAck)
        } else {
            None
        }
    }

    /// Whether entries of this type name an eventgroup.
    pub open spec fn names_eventgroup(self) -> bool {
        self is SubscribeEventgroup || self is SubscribeEventgroupAck
    }

    fn as_u8(&self) -> (r: u8)
        ensures
            r == self.raw(),
    {
        match self {
            SdEntryType::FindService => 0x00,
            SdEntryType::OfferService => 0x01,
            SdEntryType::SubscribeEventgroup => 0x06,
            SdEntryType::SubscribeEventgroupAck => 0x07,
        }
    }

    fn from_u8(raw: u8) -> (r: Option<Self>)
        ensures
            r == Self::of_raw(raw),
    {
        match raw {
            0x00 => Some(SdEntryType::FindService),
            0x01 => Some(SdEntryType::OfferService),
            0x06 => Some(SdEntryType::SubscribeEventgroup),
            0x07 => Some(SdEntryType::SubscribeEventgroupAck),
            _ => None,
        }
    }

    fn is_eventgroup(&self) -> (r: bool)
        ensures
            r == self.names_eventgroup(),
    {
        match self {
            SdEntryType::SubscribeEventgroup => true,
            SdEntryType::SubscribeEventgroupAck => true,
            _ => false,
        }
    }
}

/// An entry of a service discovery message.
#[derive(Clone, Copy, PartialEq, Eq, Structural, Debug)]
pub struct SdEntry {
    /// What the entry is.
    pub entry_type: SdEntryType,
    /// Start of the first run of options.
    pub index_1st_option: u8,
    /// Start of the second run of options.
    pub index_2nd_option: u8,
    /// Length of the first run of options.
    pub num_options_1: u8,
    /// Length of the second run of options.
    pub num_options_2: u8,
    /// The service.
    pub service_id: u16,
    /// The instance.
    pub instance_id: u16,
    /// The major version.
    pub major_version: u8,
    /// The lifetime in seconds; 0 withdraws.
    pub ttl: u32,
    /// The minor version, in entries that name no eventgroup.
    pub minor_version: u32,
    /// Tells parallel subscriptions apart, in entries that name an eventgroup.
    pub counter: u8,
    /// The eventgroup, in entries that name one.
    pub eventgroup_id: u16,
}

impl SdEntry {
    /// The entry withdraws what an entry of its type announces.
    pub open spec fn stops(self) -> bool {
        self.ttl == 0
    }

    /// The bytes on the wire.
    pub open spec fn bytes(self) -> Seq<u8> {
        seq![
            self.entry_type.raw(),
            self.index_1st_option,
            self.index_2nd_option,
            (self.num_options_1 % 16 * 16 + self.num_options_2 % 16) as u8,
        ] + be16(self.service_id) + be16(self.instance_id) + seq![self.major_version] + be24(
            self.ttl,
        ) + if self.entry_type.names_eventgroup() {
            seq![0u8, (self.counter % 16) as u8] + be16(self.eventgroup_id)
        } else {
            be32(self.minor_version)
        }
    }

    /// The entry at the start of the bytes.
    pub open spec fn parsed(s: Seq<u8>) -> Option<SdEntry> {
        match SdEntryType::of_raw(s[0]) {
            Some(entry_type) => Some(
                SdEntry {
                    entry_type,
                    index_1st_option: s[1],
                    index_2nd_option: s[2],
                    num_options_1: (s[3] / 16) as u8,
                    num_options_2: (s[3] % 16) as u8,
                    service_id: at16(s, 4),
                    instance_id: at16(s, 6),
                    major_version: s[8],
                    ttl: at24(s, 9),
                    minor_version: if entry_type.names_eventgroup() {
                        0
                    } else {
                        at32(s, 12)
                    },
                    counter: if entry_type.names_eventgroup() {
                        (s[13] % 16) as u8
                    } else {
                        0
                    },
                    eventgroup_id: if entry_type.names_eventgroup() {
                        at16(s, 14)
                    } else {
                        0
                    },
                },
            ),
            None => None,
        }
    }

    /// Every field fits in its place on the wire, and the fields without a place are 0.
    pub open spec fn encodable(self) -> bool {
        &&& self.num_options_1 < 16
        &&& self.num_options_2 < 16
        &&& self.ttl <= 0xFF_FFFF
        &&& if self.entry_type.names_eventgroup() {
            self.counter < 16 && self.minor_version == 0
        } else {
            self.counter == 0 && self.eventgroup_id == 0
        }
    }

    /// An entry for a service, without options.
    pub open spec fn of_service(
        entry_type: SdEntryType,
        service_id: u16,
        instance_id: u16,
        major_version: u8,
        minor_version: u32,
        ttl: u32,
    ) -> SdEntry {
        SdEntry {
            entry_type,
            index_1st_option: 0,
            index_2nd_option: 0,
            num_options_1: 0,
            num_options_2: 0,
            service_id,
            instance_id,
            major_version,
            ttl,
            minor_version,
            counter: 0,
            eventgroup_id: 0,
        }
    }

    /// An entry for an eventgroup, without options.
    pub open spec fn of_eventgroup(
        entry_type: SdEntryType,
        service_id: u16,
        instance_id: u16,
        major_version: u8,
        eventgroup_id: u16,
        ttl: u32,
        counter: u8,
    ) -> SdEntry {
        SdEntry {
            entry_type,
            index_1st_option: 0,
            index_2nd_option: 0,
            num_options_1: 0,
            num_options_2: 0,
            service_id,
            instance_id,
            major_version,
            ttl,
            minor_version: 0,
            counter,
            eventgroup_id,
        }
    }

    fn service_entry(
        entry_type: SdEntryType,
        service_id: u16,
        instance_id: u16,
        major_version: u8,
        minor_version: u32,
        ttl: u32,
    ) -> (r: Self)
        ensures
            r == Self::of_service(
                entry_type,
                service_id,
                instance_id,
                major_version,
                minor_version,
                ttl,
            ),
    {
        SdEntry {
            entry_type,
            index_1st_option: 0,
            index_2nd_option: 0,
            num_options_1: 0,
            num_options_2: 0,
            service_id,
            instance_id,
            major_version,
            ttl,
            minor_version,
            counter: 0,
            eventgroup_id: 0,
        }
    }

    fn eventgroup_entry(
        entry_type: SdEntryType,
        service_id: u16,
        instance_id: u16,
        major_version: u8,
        eventgroup_id: u16,
        ttl: u32,
        counter: u8,
    ) -> (r: Self)
        ensures
            r == Self::of_eventgroup(
                entry_type,
                service_id,
                instance_id,
                major_version,
                eventgroup_id,
                ttl,
                counter,
            ),
    {
        SdEntry {
            entry_type,
            index_1st_option: 0,
            index_2nd_option: 0,
            num_options_1: 0,
            num_options_2: 0,
            service_id,
            instance_id,
            major_version,
            ttl,
            minor_version: 0,
            counter,
            eventgroup_id,
        }
    }

    /// An offer with one run of options.
    pub fn offer_service(
        service_id: u16,
        instance_id: u16,
        major_version: u8,
        minor_version: u32,
        ttl: u32,
        first_option: u8,
        num_options: u8,
    ) -> (r: Self)
        ensures
            r == (SdEntry {
                index_1st_option: first_option,
                num_options_1: num_options,
                ..Self::of_service(
                    SdEntryType::OfferService,
                    service_id,
                    instance_id,
                    major_version,
                    minor_version,
                    ttl,
                )
            }),
    {
        let mut r = Self::service_entry(
            SdEntryType::OfferService,
            service_id,
            instance_id,
            major_version,
            minor_version,
            ttl,
        );
        r.index_1st_option = first_option;
        r.num_options_1 = num_options;
        r
    }

    /// The withdrawal of an offer.
    pub fn stop_offer_service(
        service_id: u16,
        instance_id: u16,
        major_version: u8,
        minor_version: u32,
    ) -> (r: Self)
        ensures
            r == Self::of_service(
                SdEntryType::OfferService,
                service_id,
                instance_id,
                major_version,
                minor_version,
                0,
            ),
            r.stops(),
    {
        Self::service_entry(
            SdEntryType::OfferService,
            service_id,
            instance_id,
            major_version,
            minor_version,
            0,
        )
    }

    /// A search.
    pub fn find_service(
        service_id: u16,
        instance_id: u16,
        major_version: u8,
        minor_version: u32,
        ttl: u32,
    ) -> (r: Self)
        ensures
            r == Self::of_service(
                SdEntryType::FindService,
                service_id,
                instance_id,
                major_version,
                minor_version,
                ttl,
            ),
    {
        Self::service_entry(
            SdEntryType::FindService,
            service_id,
            instance_id,
            major_version,
            minor_version,
            ttl,
        )
    }

    /// A subscription; with lifetime 0, its withdrawal.
    pub fn subscribe_eventgroup(
        service_id: u16,
        instance_id: u16,
        major_version: u8,
        eventgroup_id: u16,
        ttl: u32,
        counter: u8,
    ) -> (r: Self)
        ensures
            r == Self::of_eventgroup(
                SdEntryType::SubscribeEventgroup,
                service_id,
                instance_id,
                major_version,
                eventgroup_id,
                ttl,
                counter,
            ),
    {
        Self::eventgroup_entry(
            SdEntryType::SubscribeEventgroup,
            service_id,
            instance_id,
            major_version,
            eventgroup_id,
            ttl,
            counter,
        )
    }

    /// The acceptance of a subscription.
    pub fn subscribe_eventgroup_ack(
        service_id: u16,
        instance_id: u16,
        major_version: u8,
        eventgroup_id: u16,
        ttl: u32,
        counter: u8,
    ) -> (r: Self)
        ensures
            r == Self::of_eventgroup(
                SdEntryType::SubscribeEventgroupAck,
                service_id,
                instance_id,
                major_version,
                eventgroup_id,
                ttl,
                counter,
            ),
    {
        Self::eventgroup_entry(
            SdEntryType::SubscribeEventgroupAck,
            service_id,
            instance_id,
            major_version,
            eventgroup_id,
            ttl,
            counter,
        )
    }

    /// The refusal of a subscription.
    pub fn subscribe_eventgroup_nack(
        service_id: u16,
        instance_id: u16,
        major_version: u8,
        eventgroup_id: u16,
        counter: u8,
    ) -> (r: Self)
        ensures
            r == Self::of_eventgroup(
                SdEntryType::SubscribeEventgroupAck,
                service_id,
                instance_id,
                major_version,
                eventgroup_id,
                0,
                counter,
            ),
            r.stops(),
    {
        Self::eventgroup_entry(
            SdEntryType::SubscribeEventgroupAck,
            service_id,
            instance_id,
            major_version,
            eventgroup_id,
            0,
            counter,
        )
    }

    /// Whether the entry withdraws what an entry of its type announces.
    pub fn is_stop(&self) -> (r: bool)
        ensures
            r == self.stops(),
    {
        self.ttl == 0
    }

    fn serialize(&self, out: &mut Vec<u8>)
        ensures
            final(out)@ == old(out)@ + self.bytes(),
    {
        out.push(self.entry_type.as_u8());
        out.push(self.index_1st_option);
        out.push(self.index_2nd_option);
        out.push(self.num_options_1 % 16 * 16 + self.num_options_2 % 16);
        push16(out, self.service_id);
        push16(out, self.instance_id);
        out.push(self.major_version);
        push24(out, self.ttl);
        if self.entry_type.is_eventgroup() {
            out.push(0);
            out.push(self.counter % 16);
            push16(out, self.eventgroup_id);
        } else {
            push32(out, self.minor_version);
        }
        assert(out@ =~= old(out)@ + self.bytes());
    }

    fn parse(data: &[u8]) -> (r: Option<Self>)
        requires
            data@.len() >= 16,
        ensures
            r == Self::parsed(data@),
    {
        match SdEntryType::from_u8(data[0]) {
            Some(entry_type) => {
                let named: bool = entry_type.is_eventgroup();
                Some(
                    SdEntry {
                        entry_type,
                        index_1st_option: data[1],
                        index_2nd_option: data[2],
                        num_options_1: data[3] / 16,
                        num_options_2: data[3] % 16,
                        service_id: read16(data, 4),
                        instance_id: read16(data, 6),
                        major_version: data[8],
                        ttl: read24(data, 9),
                        minor_version: if named {
                            0
                        } else {
                            read32(data, 12)
                        },
                        counter: if named {
                            data[13] % 16
                        } else {
                            0
                        },
                        eventgroup_id: if named {
                            read16(data, 14)
                        } else {
                            0
                        },
                    },
                )
            },
            None => None,
        }
    }
}

/// The transport that an endpoint option names.
#[derive(Clone, Copy, PartialEq, Eq, Structural, Debug)]
pub enum L4Protocol {
    /// UDP.
    Udp,
    /// TCP.
    Tcp,
}

impl L4Protocol {
    /// The value on the wire.
    pub open spec fn raw(self) -> u8 {
        match self {
            L4Protocol::Udp => 0x11,
            L4Protocol::Tcp => 0x06,
        }
    }
}

/// An option of a service discovery message.
#[derive(Clone, Copy, PartialEq, Eq, Structural, Debug)]
pub enum SdOption {
    /// An IPv4 endpoint.
    Ipv4Endpoint {
        /// The host.
        addr: Ipv4Addr,
        /// The port.
        port: u16,
        /// The transport.
        protocol: L4Protocol,
    },
    /// An option that is not evaluated.
    Unknown {
        /// The type on the wire.
        option_type: u8,
    },
}

impl SdOption {
    /// The bytes on the wire.
    pub open spec fn bytes(self) -> Seq<u8> {
        match self {
            SdOption::Ipv4Endpoint { addr, port, protocol } => be16(9) + seq![
                0x04u8,
                0u8,
                addr.a,
                addr.b,
                addr.c,
                addr.d,
                0u8,
                protocol.raw(),
            ] + be16(port),
            SdOption::Unknown { option_type } => be16(1) + seq![option_type, 0u8],
        }
    }

    /// The option at the start of the bytes, whose length field is `len`.
    pub open spec fn parsed(s: Seq<u8>, len: int) -> SdOption {
        if s[2] == 0x04 && len == 9 && s[9] == 0x11 {
            SdOption::Ipv4Endpoint {
                addr: Ipv4Addr { a: s[4], b: s[5], c: s[6], d: s[7] },
                port: at16(s, 10),
                protocol: L4Protocol::Udp,
            }
        } else if s[2] == 0x04 && len == 9 && s[9] == 0x06 {
            SdOption::Ipv4Endpoint {
                addr: Ipv4Addr { a: s[4], b: s[5], c: s[6], d: s[7] },
                port: at16(s, 10),
                protocol: L4Protocol::Tcp,
            }
        } else {
            SdOption::Unknown { option_type: s[2] }
        }
    }

    fn serialize(&self, out: &mut Vec<u8>)
        ensures
            final(out)@ == old(out)@ + self.bytes(),
    {
        match self {
            SdOption::Ipv4Endpoint { addr, port, protocol } => {
                push16(out, 9);
                out.push(0x04);
                out.push(0);
                out.push(addr.a);
                out.push(addr.b);
                out.push(addr.c);
                out.push(addr.d);
                out.push(0);
                out.push(
                    match protocol {
                        L4Protocol::Udp => 0x11,
                        L4Protocol::Tcp => 0x06,
                    },
                );
                push16(out, *port);
            },
            SdOption::Unknown { option_type } => {
                push16(out, 1);
                out.push(*option_type);
                out.push(0);
            },
        }
        assert(out@ =~= old(out)@ + self.bytes());
    }

    fn parse(data: &[u8], len: usize) -> (r: Self)
        requires
            data@.len() >= 3 + len,
        ensures
            r == Self::parsed(data@, len as int),
    {
        if data[2] == 0x04 && len == 9 && (data[9] == 0x11 || data[9] == 0x06) {
            SdOption::Ipv4Endpoint {
                addr: Ipv4Addr::new(data[4], data[5], data[6], data[7]),
                port: read16(data, 10),
                protocol: if data[9] == 0x11 {
                    L4Protocol::Udp
                } else {
                    L4Protocol::Tcp
                },
            }
        } else {
            SdOption::Unknown { option_type: data[2] }
        }
    }
}

/// The bytes of the entries, one behind the other.
pub open spec fn entries_bytes(entries: Seq<SdEntry>) -> Seq<u8>
    decreases entries.len(),
{
    if entries.len() == 0 {
        Seq::empty()
    } else {
        entries_bytes(entries.drop_last()) + entries.last().bytes()
    }
}

/// The bytes of the options, one behind the other.
pub open spec fn options_bytes(options: Seq<SdOption>) -> Seq<u8>
    decreases options.len(),
{
    if options.len() == 0 {
        Seq::empty()
    } else {
        options_bytes(options.drop_last()) + options.last().bytes()
    }
}

/// The entries that the bytes hold: 16 bytes each, and each of a known type.
pub open spec fn parsed_entries(s: Seq<u8>) -> Option<Seq<SdEntry>>
    decreases s.len(),
{
    if s.len() == 0 {
        Some(Seq::empty())
    } else if s.len() < 16 {
        None
    } else {
        match (SdEntry::parsed(s), parsed_entries(s.skip(16))) {
            (Some(first), Some(rest)) => Some(seq![first] + rest),
            _ => None,
        }
    }
}

/// The options that the bytes hold: each with its length, which none may exceed.
pub open spec fn parsed_options(s: Seq<u8>) -> Option<Seq<SdOption>>
    decreases s.len(),
{
    if s.len() == 0 {
        Some(Seq::empty())
    } else if s.len() < 3 || s.len() < 3 + at16(s, 0) {
        None
    } else {
        match parsed_options(s.skip(3 + at16(s, 0) as int)) {
            Some(rest) => Some(seq![SdOption::parsed(s, at16(s, 0) as int)] + rest),
            None => None,
        }
    }
}

/// A service discovery message.
#[derive(Debug)]
pub struct SdMessage {
    /// Reboot and unicast flags.
    pub flags: u8,
    /// The entries.
    pub entries: Vec<SdEntry>,
    /// The options that the entries refer to.
    pub options: Vec<SdOption>,
}

/// What an [`SdMessage`] says.
#[verifier::ext_equal]
pub struct SdMessageView {
    /// Reboot and unicast flags.
    pub flags: u8,
    /// The entries.
    pub entries: Seq<SdEntry>,
    /// The options that the entries refer to.
    pub options: Seq<SdOption>,
}

impl View for SdMessage {
    type V = SdMessageView;

    open spec fn view(&self) -> SdMessageView {
        SdMessageView { flags: self.flags, entries: self.entries@, options: self.options@ }
    }
}

/// The run of `n` options from position `i` on, as far as it is there.
pub open spec fn option_run(options: Seq<SdOption>, i: u8, n: u8) -> Seq<SdOption> {
    let len = options.len() as int;
    let from = if i < len {
        i as int
    } else {
        len
    };
    let to = if i + n < len {
        i + n
    } else {
        len
    };
    options.subrange(from, to)
}

/// The first endpoint of a transport among the options.
pub open spec fn first_endpoint(options: Seq<SdOption>, protocol: L4Protocol) -> Option<SocketAddr>
    decreases options.len(),
{
    if options.len() == 0 {
        None
    } else {
        match options[0] {
            SdOption::Ipv4Endpoint { addr, port, protocol: p } if p == protocol => Some(
                SocketAddr { ip: IpAddr::V4(addr), port },
            ),
            _ => first_endpoint(options.skip(1), protocol),
        }
    }
}

impl SdMessageView {
    /// A message without entries and options.
    pub open spec fn empty(flags: u8) -> SdMessageView {
        SdMessageView { flags, entries: Seq::empty(), options: Seq::empty() }
    }

    /// The options that an entry refers to: its first run, then its second.
    pub open spec fn options_of(self, entry: SdEntry) -> Seq<SdOption> {
        option_run(self.options, entry.index_1st_option, entry.num_options_1) + option_run(
            self.options,
            entry.index_2nd_option,
            entry.num_options_2,
        )
    }

    /// The endpoint of a transport that an entry refers to.
    pub open spec fn endpoint_of(self, entry: SdEntry, protocol: L4Protocol) -> Option<SocketAddr> {
        first_endpoint(self.options_of(entry), protocol)
    }

    /// The bytes behind the header.
    #[verifier::opaque]
    pub open spec fn payload(self) -> Seq<u8> {
        let e = entries_bytes(self.entries);
        let o = options_bytes(self.options);
        seq![self.flags, 0u8, 0u8, 0u8] + be32((e.len() % 0x1_0000_0000) as u32) + e + be32(
            (o.len() % 0x1_0000_0000) as u32,
        ) + o
    }

    /// The header for a session.
    pub open spec fn header(self, session_id: u16) -> Header {
        Header {
            service_id: SD_SERVICE_ID,
            method_id: SD_METHOD_ID,
            length: ((self.payload().len() + 8) % 0x1_0000_0000) as u32,
            client_id: 0,
            session_id,
            protocol_version: PROTOCOL_VERSION,
            interface_version: 1,
            message_type: MessageType::Notification,
            return_code: 0,
        }
    }

    /// The bytes on the wire, header and all.
    pub open spec fn bytes(self, session_id: u16) -> Seq<u8> {
        self.header(session_id).bytes() + self.payload()
    }

    /// The message behind the header.
    pub open spec fn parsed(s: Seq<u8>) -> Option<SdMessageView> {
        if s.len() < 8 {
            None
        } else {
            let e = at32(s, 4) as int;
            if s.len() < 12 + e {
                None
            } else {
                let o = at32(s, 8 + e) as int;
                if s.len() < 12 + e + o {
                    None
                } else {
                    match (
                        parsed_entries(s.subrange(8, 8 + e)),
                        parsed_options(s.subrange(12 + e, 12 + e + o)),
                    ) {
                        (Some(entries), Some(options)) => Some(
                            SdMessageView { flags: s[0], entries, options },
                        ),
                        _ => None,
                    }
                }
            }
        }
    }

    /// Every entry fits its place on the wire, and the lengths fit their fields.
    pub open spec fn encodable(self) -> bool {
        &&& forall|i: int| 0 <= i < self.entries.len() ==> (#[trigger] self.entries[i]).encodable()
        &&& self.payload().len() + 8 <= u32::MAX
    }
}

impl SdMessage {
    /// A message without entries and options.
    pub fn new(flags: u8) -> (r: Self)
        ensures
            r@ == SdMessageView::empty(flags),
    {
        SdMessage { flags, entries: Vec::new(), options: Vec::new() }
    }

    /// Appends an option and returns its index.
    pub fn add_option(&mut self, option: SdOption) -> (r: u8)
        ensures
            r == old(self)@.options.len() % 256,
            final(self)@ == (SdMessageView {
                options: old(self)@.options.push(option),
                ..old(self)@
            }),
    {
        let r: u8 = (self.options.len() % 256) as u8;
        self.options.push(option);
        r
    }

    /// Appends an entry.
    pub fn add_entry(&mut self, entry: SdEntry)
        ensures
            final(self)@ == (SdMessageView {
                entries: old(self)@.entries.push(entry),
                ..old(self)@
            }),
    {
        self.entries.push(entry);
    }

    fn endpoint_in_run(&self, i: u8, n: u8, protocol: L4Protocol) -> (r: Option<SocketAddr>)
        ensures
            r == first_endpoint(option_run(self@.options, i, n), protocol),
    {
        let len: usize = self.options.len();
        let from: usize = if (i as usize) < len {
            i as usize
        } else {
            len
        };
        let to: usize = if (i as usize) + (n as usize) < len {
            (i as usize) + (n as usize)
        } else {
            len
        };
        let ghost run = option_run(self@.options, i, n);
        let mut k: usize = from;
        assert(run.skip(0) =~= run);
        while k < to
            invariant
                from <= k <= to <= len,
                len == self.options@.len(),
                run == option_run(self@.options, i, n),
                run == self.options@.subrange(from as int, to as int),
                first_endpoint(run, protocol) == first_endpoint(run.skip(k - from), protocol),
            decreases to - k,
        {
            let ghost rest = run.skip(k - from);
            assert(rest[0] == self.options@[k as int]);
            match self.options[k] {
                SdOption::Ipv4Endpoint { addr, port, protocol: p } => {
                    if p == protocol {
                        return Some(SocketAddr::v4(addr, port));
                    }
                },
                SdOption::Unknown { .. } => {},
            }
            assert(rest.skip(1) =~= run.skip(k + 1 - from));
            k += 1;
        }
        assert(run.skip(k - from).len() == 0);
        None
    }

    fn endpoint(&self, entry: &SdEntry, protocol: L4Protocol) -> (r: Option<SocketAddr>)
        ensures
            r == self@.endpoint_of(*entry, protocol),
    {
        proof {
            lemma_first_endpoint_add(
                option_run(self@.options, entry.index_1st_option, entry.num_options_1),
                option_run(self@.options, entry.index_2nd_option, entry.num_options_2),
                protocol,
            );
        }
        match self.endpoint_in_run(entry.index_1st_option, entry.num_options_1, protocol) {
            Some(ep) => Some(ep),
            None => self.endpoint_in_run(entry.index_2nd_option, entry.num_options_2, protocol),
        }
    }

    /// The UDP endpoint that an entry refers to.
    pub fn get_udp_endpoint(&self, entry: &SdEntry) -> (r: Option<SocketAddr>)
        ensures
            r == self@.endpoint_of(*entry, L4Protocol::Udp),
    {
        self.endpoint(entry, L4Protocol::Udp)
    }

    /// The TCP endpoint that an entry refers to.
    pub fn get_tcp_endpoint(&self, entry: &SdEntry) -> (r: Option<SocketAddr>)
        ensures
            r == self@.endpoint_of(*entry, L4Protocol::Tcp),
    {
        self.endpoint(entry, L4Protocol::Tcp)
    }

    /// The bytes on the wire, with the header for a session.
    pub fn serialize(&self, session_id: u16) -> (r: Vec<u8>)
        ensures
            r@ == self@.bytes(session_id),
    {
        let mut e: Vec<u8> = Vec::new();
        let mut i: usize = 0;
        while i < self.entries.len()
            invariant
                0 <= i <= self.entries@.len(),
                e@ == entries_bytes(self.entries@.take(i as int)),
            decreases self.entries@.len() - i,
        {
            proof {
                crate::rows::lemma_take_step(self.entries@, i as int);
            }
            self.entries[i].serialize(&mut e);
            i += 1;
        }
        assert(self.entries@.take(i as int) =~= self.entries@);
        let mut o: Vec<u8> = Vec::new();
        let mut k: usize = 0;
        while k < self.options.len()
            invariant
                0 <= k <= self.options@.len(),
                o@ == options_bytes(self.options@.take(k as int)),
            decreases self.options@.len() - k,
        {
            proof {
                crate::rows::lemma_take_step(self.options@, k as int);
            }
            self.options[k].serialize(&mut o);
            k += 1;
        }
        assert(self.options@.take(k as int) =~= self.options@);
        let mut payload: Vec<u8> = Vec::new();
        payload.push(self.flags);
        payload.push(0);
        payload.push(0);
        payload.push(0);
        push32(&mut payload, (e.len() as u64 % 0x1_0000_0000) as u32);
        push_all(&mut payload, e.as_slice());
        push32(&mut payload, (o.len() as u64 % 0x1_0000_0000) as u32);
        push_all(&mut payload, o.as_slice());
        proof {
            reveal(SdMessageView::payload);
        }
        assert(payload@ =~= self@.payload());
        let header = Header {
            service_id: SD_SERVICE_ID,
            method_id: SD_METHOD_ID,
            length: ((payload.len() as u128 + 8) % 0x1_0000_0000) as u32,
            client_id: 0,
            session_id,
            protocol_version: PROTOCOL_VERSION,
            interface_version: 1,
            message_type: MessageType::Notification,
            return_code: 0,
        };
        let mut out: Vec<u8> = Vec::new();
        header.serialize(&mut out);
        push_all(&mut out, payload.as_slice());
        assert(out@ =~= self@.bytes(session_id));
        out
    }

    fn parse_entries(data: &[u8]) -> (r: Option<Vec<SdEntry>>)
        ensures
            match r {
                Some(entries) => parsed_entries(data@) == Some(entries@),
                None => parsed_entries(data@) is None,
            },
    {
        let ghost s = data@;
        let mut out: Vec<SdEntry> = Vec::new();
        let mut i: usize = 0;
        assert(s.skip(0) =~= s);
        proof {
            lemma_prepend_nothing(parsed_entries(s));
        }
        while i < data.len()
            invariant
                0 <= i <= s.len(),
                data@ == s,
                parsed_entries(s) == prepend(out@, parsed_entries(s.skip(i as int))),
            decreases s.len() - i,
        {
            let ghost rest = s.skip(i as int);
            if data.len() - i < 16 {
                return None;
            }
            let part = slice_subrange(data, i, data.len());
            assert(part@ =~= rest);
            match SdEntry::parse(part) {
                Some(entry) => {
                    assert(rest.skip(16) =~= s.skip(i + 16));
                    let ghost before = out@;
                    out.push(entry);
                    i += 16;
                    proof {
                        lemma_prepend_step(before, entry, parsed_entries(s.skip(i as int)));
                    }
                },
                None => {
                    return None;
                },
            }
        }
        assert(s.skip(i as int).len() == 0);
        assert(out@ + Seq::<SdEntry>::empty() =~= out@);
        Some(out)
    }

    fn parse_options(data: &[u8]) -> (r: Option<Vec<SdOption>>)
        ensures
            match r {
                Some(options) => parsed_options(data@) == Some(options@),
                None => parsed_options(data@) is None,
            },
    {
        let ghost s = data@;
        let mut out: Vec<SdOption> = Vec::new();
        let mut i: usize = 0;
        assert(s.skip(0) =~= s);
        proof {
            lemma_prepend_nothing(parsed_options(s));
        }
        while i < data.len()
            invariant
                0 <= i <= s.len(),
                data@ == s,
                parsed_options(s) == prepend(out@, parsed_options(s.skip(i as int))),
            decreases s.len() - i,
        {
            let ghost rest = s.skip(i as int);
            if data.len() - i < 3 {
                return None;
            }
            let part = slice_subrange(data, i, data.len());
            assert(part@ =~= rest);
            let len: usize = read16(part, 0) as usize;
            if data.len() - i - 3 < len {
                return None;
            }
            let option = SdOption::parse(part, len);
            assert(rest.skip(3 + len as int) =~= s.skip(i + 3 + len));
            let ghost before = out@;
            out.push(option);
            i += 3 + len;
            proof {
                lemma_prepend_step(before, option, parsed_options(s.skip(i as int)));
            }
        }
        assert(s.skip(i as int).len() == 0);
        assert(out@ + Seq::<SdOption>::empty() =~= out@);
        Some(out)
    }

    /// Reads the message behind the header; `None` where it is malformed.
    pub fn parse(data: &[u8]) -> (r: Option<Self>)
        ensures
            match r {
                Some(m) => SdMessageView::parsed(data@) == Some(m@),
                None => SdMessageView::parsed(data@) is None,
            },
    {
        if data.len() < 8 {
            return None;
        }
        let e: usize = read32(data, 4) as usize;
        if data.len() - 8 < 4 || data.len() - 12 < e {
            return None;
        }
        let o: usize = read32(data, 8 + e) as usize;
        if data.len() - 12 - e < o {
            return None;
        }
        let entries = match Self::parse_entries(slice_subrange(data, 8, 8 + e)) {
            Some(entries) => entries,
            None => {
                return None;
            },
        };
        match Self::parse_options(slice_subrange(data, 12 + e, 12 + e + o)) {
            Some(options) => Some(SdMessage { flags: data[0], entries, options }),
            None => None,
        }
    }
}

spec fn prepend<T>(s: Seq<T>, t: Option<Seq<T>>) -> Option<Seq<T>> {
    match t {
        Some(rest) => Some(s + rest),
        None => None,
    }
}

proof fn lemma_prepend_nothing<T>(t: Option<Seq<T>>)
    ensures
        prepend(Seq::<T>::empty(), t) == t,
{
    if let Some(rest) = t {
        assert(Seq::<T>::empty() + rest =~= rest);
    }
}

proof fn lemma_prepend_step<T>(s: Seq<T>, x: T, t: Option<Seq<T>>)
    ensures
        prepend(s, prepend(seq![x], t)) == prepend(s.push(x), t),
{
    if let Some(rest) = t {
        assert(s + (seq![x] + rest) =~= s.push(x) + rest);
    }
}

/// The first endpoint of two runs is that of the first run, or else that of the second.
pub proof fn lemma_first_endpoint_add(a: Seq<SdOption>, b: Seq<SdOption>, protocol: L4Protocol)
    ensures
        first_endpoint(a + b, protocol) == (match first_endpoint(a, protocol) {
            Some(ep) => Some(ep),
            None => first_endpoint(b, protocol),
        }),
    decreases a.len(),
{
    if a.len() == 0 {
        assert(a + b =~= b);
    } else {
        assert((a + b).skip(1) =~= a.skip(1) + b);
        lemma_first_endpoint_add(a.skip(1), b, protocol);
    }
}

proof fn lemma_entry_layout(e: SdEntry, rest: Seq<u8>)
    ensures
        ({
            let s = e.bytes() + rest;
            &&& e.bytes().len() == 16
            &&& s[0] == e.entry_type.raw()
            &&& s[1] == e.index_1st_option
            &&& s[2] == e.index_2nd_option
            &&& s[3] == (e.num_options_1 % 16 * 16 + e.num_options_2 % 16) as u8
            &&& s.subrange(4, 6) == be16(e.service_id)
            &&& s.subrange(6, 8) == be16(e.instance_id)
            &&& s[8] == e.major_version
            &&& s.subrange(9, 12) == be24(e.ttl)
            &&& e.entry_type.names_eventgroup() ==> s[13] == (e.counter % 16) as u8 && s.subrange(
                14,
                16,
            ) == be16(e.eventgroup_id)
            &&& !e.entry_type.names_eventgroup() ==> s.subrange(12, 16) == be32(e.minor_version)
        }),
{
    let s = e.bytes() + rest;
    assert(s.subrange(4, 6) =~= be16(e.service_id));
    assert(s.subrange(6, 8) =~= be16(e.instance_id));
    assert(s.subrange(9, 12) =~= be24(e.ttl));
    if e.entry_type.names_eventgroup() {
        assert(s.subrange(14, 16) =~= be16(e.eventgroup_id));
    } else {
        assert(s.subrange(12, 16) =~= be32(e.minor_version));
    }
}

proof fn lemma_entry_round_trip(e: SdEntry, rest: Seq<u8>)
    requires
        e.encodable(),
    ensures
        e.bytes().len() == 16,
        SdEntry::parsed(e.bytes() + rest) == Some(e),
{
    let s = e.bytes() + rest;
    lemma_entry_layout(e, rest);
    crate::wire::lemma_read_back16(s, 4, e.service_id);
    crate::wire::lemma_read_back16(s, 6, e.instance_id);
    crate::wire::lemma_read_back24(s, 9, e.ttl);
    let n = e.num_options_1;
    let m = e.num_options_2;
    assert((n % 16 * 16 + m % 16) / 16 == n && (n % 16 * 16 + m % 16) % 16 == m);
    if e.entry_type.names_eventgroup() {
        crate::wire::lemma_read_back16(s, 14, e.eventgroup_id);
    } else {
        crate::wire::lemma_read_back32(s, 12, e.minor_version);
    }
}

proof fn lemma_option_round_trip(o: SdOption, rest: Seq<u8>)
    ensures
        o.bytes().len() == 3 + at16(o.bytes() + rest, 0),
        SdOption::parsed(o.bytes() + rest, at16(o.bytes() + rest, 0) as int) == o,
{
    let s = o.bytes() + rest;
    match o {
        SdOption::Ipv4Endpoint { addr, port, protocol } => {
            assert(s.subrange(0, 2) =~= be16(9));
            crate::wire::lemma_read_back16(s, 0, 9);
            assert(s.subrange(10, 12) =~= be16(port));
            crate::wire::lemma_read_back16(s, 10, port);
            assert(s[9] == protocol.raw());
            assert(s[4] == addr.a && s[5] == addr.b && s[6] == addr.c && s[7] == addr.d);
        },
        SdOption::Unknown { option_type } => {
            assert(s.subrange(0, 2) =~= be16(1));
            crate::wire::lemma_read_back16(s, 0, 1);
            assert(s[2] == option_type);
        },
    }
}

proof fn lemma_entries_bytes_front(entries: Seq<SdEntry>)
    requires
        entries.len() > 0,
    ensures
        entries_bytes(entries) == entries[0].bytes() + entries_bytes(entries.skip(1)),
    decreases entries.len(),
{
    if entries.len() == 1 {
        assert(entries.drop_last() =~= Seq::empty());
        assert(entries.skip(1) =~= Seq::empty());
        assert(entries_bytes(entries) =~= entries[0].bytes() + entries_bytes(entries.skip(1)));
    } else {
        lemma_entries_bytes_front(entries.drop_last());
        assert(entries.drop_last().skip(1) =~= entries.skip(1).drop_last());
        assert(entries_bytes(entries) =~= entries[0].bytes() + entries_bytes(entries.skip(1)));
    }
}

proof fn lemma_options_bytes_front(options: Seq<SdOption>)
    requires
        options.len() > 0,
    ensures
        options_bytes(options) == options[0].bytes() + options_bytes(options.skip(1)),
    decreases options.len(),
{
    if options.len() == 1 {
        assert(options.drop_last() =~= Seq::empty());
        assert(options.skip(1) =~= Seq::empty());
        assert(options_bytes(options) =~= options[0].bytes() + options_bytes(options.skip(1)));
    } else {
        lemma_options_bytes_front(options.drop_last());
        assert(options.drop_last().skip(1) =~= options.skip(1).drop_last());
        assert(options_bytes(options) =~= options[0].bytes() + options_bytes(options.skip(1)));
    }
}

proof fn lemma_entries_round_trip(entries: Seq<SdEntry>)
    requires
        forall|i: int| 0 <= i < entries.len() ==> (#[trigger] entries[i]).encodable(),
    ensures
        parsed_entries(entries_bytes(entries)) == Some(entries),
    decreases entries.len(),
{
    if entries.len() == 0 {
        assert(entries =~= Seq::empty());
    } else {
        let rest = entries.skip(1);
        assert forall|i: int| 0 <= i < rest.len() implies (#[trigger] rest[i]).encodable() by {
            assert(rest[i] == entries[i + 1]);
        }
        lemma_entries_round_trip(rest);
        lemma_entries_bytes_front(entries);
        lemma_entry_round_trip(entries[0], entries_bytes(rest));
        let s = entries_bytes(entries);
        assert(s.skip(16) =~= entries_bytes(rest));
        assert(seq![entries[0]] + rest =~= entries);
    }
}

proof fn lemma_options_round_trip(options: Seq<SdOption>)
    ensures
        parsed_options(options_bytes(options)) == Some(options),
    decreases options.len(),
{
    if options.len() == 0 {
        assert(options =~= Seq::empty());
    } else {
        let rest = options.skip(1);
        lemma_options_round_trip(rest);
        lemma_options_bytes_front(options);
        lemma_option_round_trip(options[0], options_bytes(rest));
        let s = options_bytes(options);
        assert(s.skip(options[0].bytes().len() as int) =~= options_bytes(rest));
        assert(seq![options[0]] + rest =~= options);
    }
}

proof fn lemma_payload_layout(m: SdMessageView)
    requires
        m.payload().len() <= u32::MAX,
    ensures
        ({
            let s = m.payload();
            let e = entries_bytes(m.entries);
            let o = options_bytes(m.options);
            &&& s.len() == 12 + e.len() + o.len()
            &&& s[0] == m.flags
            &&& s.subrange(4, 8) == be32(e.len() as u32)
            &&& s.subrange(8, 8 + e.len() as int) == e
            &&& s.subrange(8 + e.len() as int, 12 + e.len() as int) == be32(o.len() as u32)
            &&& s.subrange(12 + e.len() as int, 12 + e.len() + o.len() as int) == o
        }),
{
    reveal(SdMessageView::payload);
    let s = m.payload();
    let e = entries_bytes(m.entries);
    let o = options_bytes(m.options);
    let head = seq![m.flags, 0u8, 0u8, 0u8];
    let le = be32((e.len() % 0x1_0000_0000) as u32);
    let lo = be32((o.len() % 0x1_0000_0000) as u32);
    assert(le.len() == 4 && lo.len() == 4);
    assert(s.len() == 12 + e.len() + o.len());
    assert(e.len() % 0x1_0000_0000 == e.len());
    assert(o.len() % 0x1_0000_0000 == o.len());
    assert(s == head + le + e + lo + o);
    assert(s.subrange(4, 8) =~= le);
    assert(s.subrange(8, 8 + e.len() as int) =~= e);
    assert(s.subrange(8 + e.len() as int, 12 + e.len() as int) =~= lo);
    assert(s.subrange(12 + e.len() as int, 12 + e.len() + o.len() as int) =~= o);
}

/// The payload of a message that was written reads back: it holds the same flags, entries
/// and options.
pub proof fn sd_payload_round_trip(m: SdMessageView)
    requires
        m.encodable(),
    ensures
        SdMessageView::parsed(m.payload()) == Some(m),
{
    let s = m.payload();
    let e = entries_bytes(m.entries);
    let o = options_bytes(m.options);
    lemma_payload_layout(m);
    crate::wire::lemma_read_back32(s, 4, e.len() as u32);
    crate::wire::lemma_read_back32(s, 8 + e.len() as int, o.len() as u32);
    lemma_entries_round_trip(m.entries);
    lemma_options_round_trip(m.options);
    assert(at32(s, 4) == e.len());
    assert(at32(s, 8 + e.len() as int) == o.len());
}

proof fn lemma_framing(h: Header, s: Seq<u8>)
    requires
        h.length == s.len() + 8,
    ensures
        Header::parsed(h.bytes() + s) == Some(h),
        (h.bytes() + s).skip(16) == s,
        h.payload_len() == s.len(),
{
    crate::wire::header_round_trip(h, s);
    assert((h.bytes() + s).skip(16) =~= s);
}

/// The header of a message that was written reads back and announces exactly the payload
/// that follows it.
pub proof fn sd_message_framing(m: SdMessageView, session_id: u16)
    requires
        m.payload().len() + 8 <= u32::MAX,
    ensures
        Header::parsed(m.bytes(session_id)) == Some(m.header(session_id)),
        m.bytes(session_id).skip(16) == m.payload(),
        m.header(session_id).payload_len() == m.payload().len(),
{
    lemma_framing(m.header(session_id), m.payload());
}

proof fn lemma_entries_size(entries: Seq<SdEntry>)
    ensures
        entries_bytes(entries).len() == 16 * entries.len(),
    decreases entries.len(),
{
    if entries.len() > 0 {
        lemma_entries_size(entries.drop_last());
        lemma_entry_layout(entries.last(), Seq::empty());
    }
}

proof fn lemma_options_size(options: Seq<SdOption>)
    ensures
        options_bytes(options).len() <= 12 * options.len(),
    decreases options.len(),
{
    if options.len() > 0 {
        lemma_options_size(options.drop_last());
        let last = options.last();
        assert(last.bytes().len() <= 12);
    }
}

/// A message grows with its entries and options only: an entry takes 16 bytes, an option at
/// most 12.
pub proof fn sd_payload_size(m: SdMessageView)
    ensures
        12 + 16 * m.entries.len() <= m.payload().len() <= 12 + 16 * m.entries.len() + 12
            * m.options.len(),
{
    reveal(SdMessageView::payload);
    lemma_entries_size(m.entries);
    lemma_options_size(m.options);
}

/// Whatever is read from the wire could have been written to it: the fields of a parsed
/// entry fit their places.
pub proof fn parsed_entry_is_encodable(s: Seq<u8>)
    requires
        s.len() >= 16,
        SdEntry::parsed(s) is Some,
    ensures
        SdEntry::parsed(s)->0.encodable(),
{
}

} // verus!
