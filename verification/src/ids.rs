//! Protocol identifiers, versions and return codes.

use vstd::prelude::*;

verus! {

/// Service identifier: `0x0001..=0xFFFE`.
#[derive(Clone, Copy, PartialEq, Eq, Structural, Debug, Hash)]
pub struct ServiceId(u16);

impl View for ServiceId {
    type V = u16;

    closed spec fn view(&self) -> u16 {
        self.0
    }
}

impl ServiceId {
    #[verifier::type_invariant]
    spec fn in_range(self) -> bool {
        Self::allowed(self.0)
    }

    /// `0x0000` and `0xFFFF` are reserved.
    pub open spec fn allowed(id: u16) -> bool {
        id != 0 && id != 0xFFFF
    }

    /// The identifier with the raw value `id`; `None` for a reserved value.
    pub fn new(id: u16) -> (r: Option<Self>)
        ensures
            r is Some <==> Self::allowed(id),
            r matches Some(s) ==> s@ == id,
    {
        if id == 0x0000 || id == 0xFFFF {
            None
        } else {
            Some(ServiceId(id))
        }
    }

    /// The raw value.
    pub fn value(&self) -> (r: u16)
        ensures
            r == self@,
            Self::allowed(r),
    {
        proof {
            use_type_invariant(*self);
        }
        self.0
    }
}

/// Instance identifier: one instance, or any.
#[derive(Clone, Copy, PartialEq, Eq, Structural, Debug, Hash)]
pub enum InstanceId {
    /// Any instance, `0xFFFF` on the wire.
    Any,
    /// The instance with this identifier.
    Id(u16),
}

impl InstanceId {
    /// Any instance.
    pub const ANY: InstanceId = InstanceId::Any;

    /// The raw value, `0xFFFF` for any.
    pub open spec fn raw(self) -> u16 {
        match self {
            InstanceId::Any => 0xFFFF,
            InstanceId::Id(id) => id,
        }
    }

    /// The identifier with the raw value `id`; `None` for `0x0000`.
    pub fn new(id: u16) -> (r: Option<Self>)
        ensures
            r == (if id == 0 {
                None
            } else if id == 0xFFFF {
                Some(InstanceId::Any)
            } else {
                Some(InstanceId::Id(id))
            }),
    {
        if id == 0x0000 {
            None
        } else if id == 0xFFFF {
            Some(InstanceId::Any)
        } else {
            Some(InstanceId::Id(id))
        }
    }

    /// The raw value, `0xFFFF` for any.
    pub fn value(&self) -> (r: u16)
        ensures
            r == self.raw(),
    {
        match self {
            InstanceId::Any => 0xFFFF,
            InstanceId::Id(id) => *id,
        }
    }

    /// Whether this is the wildcard.
    pub fn is_any(&self) -> (r: bool)
        ensures
            r == (self is Any),
    {
        matches!(self, InstanceId::Any)
    }
}

/// Method identifier: `0x0000..=0x7FFF`.
#[derive(Clone, Copy, PartialEq, Eq, Structural, Debug, Hash)]
pub struct MethodId(u16);

impl View for MethodId {
    type V = u16;

    closed spec fn view(&self) -> u16 {
        self.0
    }
}

impl MethodId {
    #[verifier::type_invariant]
    spec fn in_range(self) -> bool {
        Self::allowed(self.0)
    }

    /// The high bit is reserved for events.
    pub open spec fn allowed(id: u16) -> bool {
        id < 0x8000
    }

    /// The identifier with the raw value `id`; `None` where the high bit is set.
    pub fn new(id: u16) -> (r: Option<Self>)
        ensures
            r is Some <==> Self::allowed(id),
            r matches Some(m) ==> m@ == id,
    {
        if id >= 0x8000 {
            None
        } else {
            Some(MethodId(id))
        }
    }

    /// The raw value.
    pub fn value(&self) -> (r: u16)
        ensures
            r == self@,
            Self::allowed(r),
    {
        proof {
            use_type_invariant(*self);
        }
        self.0
    }
}

/// Event identifier: `0x8000..=0xFFFE`.
#[derive(Clone, Copy, PartialEq, Eq, Structural, Debug, Hash)]
pub struct EventId(u16);

impl View for EventId {
    type V = u16;

    closed spec fn view(&self) -> u16 {
        self.0
    }
}

impl EventId {
    #[verifier::type_invariant]
    spec fn in_range(self) -> bool {
        Self::allowed(self.0)
    }

    /// The high bit is set, and `0xFFFF` is reserved.
    pub open spec fn allowed(id: u16) -> bool {
        0x8000 <= id < 0xFFFF
    }

    /// The identifier with the raw value `id`; `None` outside `0x8000..=0xFFFE`.
    pub fn new(id: u16) -> (r: Option<Self>)
        ensures
            r is Some <==> Self::allowed(id),
            r matches Some(e) ==> e@ == id,
    {
        if id < 0x8000 || id == 0xFFFF {
            None
        } else {
            Some(EventId(id))
        }
    }

    /// The raw value.
    pub fn value(&self) -> (r: u16)
        ensures
            r == self@,
            Self::allowed(r),
    {
        proof {
            use_type_invariant(*self);
        }
        self.0
    }
}

/// Eventgroup identifier: `0x0001..=0xFFFE`.
#[derive(Clone, Copy, PartialEq, Eq, Structural, Debug, Hash)]
pub struct EventgroupId(u16);

impl View for EventgroupId {
    type V = u16;

    closed spec fn view(&self) -> u16 {
        self.0
    }
}

impl EventgroupId {
    #[verifier::type_invariant]
    spec fn in_range(self) -> bool {
        Self::allowed(self.0)
    }

    /// `0x0000` and `0xFFFF` are reserved.
    pub open spec fn allowed(id: u16) -> bool {
        id != 0 && id != 0xFFFF
    }

    /// The identifier with the raw value `id`; `None` for a reserved value.
    pub fn new(id: u16) -> (r: Option<Self>)
        ensures
            r is Some <==> Self::allowed(id),
            r matches Some(e) ==> e@ == id,
    {
        if id == 0x0000 || id == 0xFFFF {
            None
        } else {
            Some(EventgroupId(id))
        }
    }

    /// The raw value.
    pub fn value(&self) -> (r: u16)
        ensures
            r == self@,
            Self::allowed(r),
    {
        proof {
            use_type_invariant(*self);
        }
        self.0
    }

    /// Whether both are the same eventgroup.
    pub fn same(&self, other: &Self) -> (r: bool)
        ensures
            r == (self@ == other@),
            r == (*self == *other),
    {
        self.0 == other.0
    }
}

/// Major version of a service interface: one version, or any.
#[derive(Clone, Copy, PartialEq, Eq, Structural, Debug, Hash)]
pub enum MajorVersion {
    /// Any version, `0xFF` on the wire.
    Any,
    /// This version.
    Exact(u8),
}

impl MajorVersion {
    /// The raw value, `0xFF` for any.
    pub open spec fn raw(self) -> u8 {
        match self {
            MajorVersion::Any => 0xFF,
            MajorVersion::Exact(v) => v,
        }
    }

    /// The version with the raw value `version`.
    pub open spec fn of_raw(version: u8) -> MajorVersion {
        if version == 0xFF {
            MajorVersion::Any
        } else {
            MajorVersion::Exact(version)
        }
    }

    /// The version with the raw value `version`; `0xFF` is the wildcard.
    pub fn new(version: u8) -> (r: Self)
        ensures
            r == Self::of_raw(version),
    {
        if version == 0xFF {
            MajorVersion::Any
        } else {
            MajorVersion::Exact(version)
        }
    }

    /// The raw value, `0xFF` for any.
    pub fn value(&self) -> (r: u8)
        ensures
            r == self.raw(),
    {
        match self {
            MajorVersion::Any => 0xFF,
            MajorVersion::Exact(v) => *v,
        }
    }

    /// Whether this is the wildcard.
    pub fn is_any(&self) -> (r: bool)
        ensures
            r == (self is Any),
    {
        matches!(self, MajorVersion::Any)
    }
}

impl Default for MajorVersion {
    fn default() -> (r: Self)
        ensures
            r == MajorVersion::Any,
    {
        MajorVersion::Any
    }
}

impl From<u8> for MajorVersion {
    fn from(v: u8) -> (r: Self) {
        MajorVersion::new(v)
    }
}

impl vstd::std_specs::convert::FromSpecImpl<u8> for MajorVersion {
    open spec fn obeys_from_spec() -> bool {
        true
    }

    open spec fn from_spec(v: u8) -> MajorVersion {
        MajorVersion::of_raw(v)
    }
}

/// Minor version of a service interface.
#[derive(Clone, Copy, PartialEq, Eq, Structural, Debug, Hash)]
pub struct MinorVersion(u32);

impl View for MinorVersion {
    type V = u32;

    closed spec fn view(&self) -> u32 {
        self.0
    }
}

impl MinorVersion {
    /// The given version.
    pub fn new(version: u32) -> (r: Self)
        ensures
            r@ == version,
    {
        MinorVersion(version)
    }

    /// The raw value.
    pub fn value(&self) -> (r: u32)
        ensures
            r == self@,
    {
        self.0
    }
}

impl Default for MinorVersion {
    fn default() -> (r: Self)
        ensures
            r@ == 0,
    {
        MinorVersion(0)
    }
}

/// Return codes of a received response.
#[derive(Clone, Copy, PartialEq, Eq, Structural, Debug)]
pub enum ReturnCode {
    /// `0x00`: no error.
    Okay,
    /// `0x01`: an unspecified error.
    NotOk,
    /// `0x02`: unknown service.
    UnknownService,
    /// `0x03`: unknown method.
    UnknownMethod,
    /// `0x04`: application not running.
    NotReady,
    /// `0x05`: system not reachable.
    NotReachable,
    /// `0x06`: timeout.
    Timeout,
    /// `0x07`: protocol version not supported.
    WrongProtocolVersion,
    /// `0x08`: interface version mismatch.
    WrongInterfaceVersion,
    /// `0x09`: the payload could not be read.
    MalformedMessage,
    /// `0x0A`: unexpected message type.
    WrongMessageType,
}

impl ReturnCode {
    /// The value on the wire.
    pub open spec fn raw(self) -> u8 {
        match self {
            ReturnCode::Okay => 0x00,
            ReturnCode::NotOk => 0x01,
            ReturnCode::UnknownService => 0x02,
            ReturnCode::UnknownMethod => 0x03,
            ReturnCode::NotReady => 0x04,
            ReturnCode::NotReachable => 0x05,
            ReturnCode::Timeout => 0x06,
            ReturnCode::WrongProtocolVersion => 0x07,
            ReturnCode::WrongInterfaceVersion => 0x08,
            ReturnCode::MalformedMessage => 0x09,
            ReturnCode::WrongMessageType => 0x0A,
        }
    }

    /// The return code of a received response: a code that is not defined is `NotOk`.
    pub fn from_wire(code: u8) -> (r: Self)
        ensures
            r == return_code_of(code),
    {
        match code {
            0x00 => ReturnCode::Okay,
            0x01 => ReturnCode::NotOk,
            0x02 => ReturnCode::UnknownService,
            0x03 => ReturnCode::UnknownMethod,
            0x04 => ReturnCode::NotReady,
            0x05 => ReturnCode::NotReachable,
            0x06 => ReturnCode::Timeout,
            0x07 => ReturnCode::WrongProtocolVersion,
            0x08 => ReturnCode::WrongInterfaceVersion,
            0x09 => ReturnCode::MalformedMessage,
            0x0A => ReturnCode::WrongMessageType,
            _ => ReturnCode::NotOk,
        }
    }
}

/// The return code that a received code stands for.
pub open spec fn return_code_of(code: u8) -> ReturnCode {
    match code {
        0x00 => ReturnCode::Okay,
        0x02 => ReturnCode::UnknownService,
        0x03 => ReturnCode::UnknownMethod,
        0x04 => ReturnCode::NotReady,
        0x05 => ReturnCode::NotReachable,
        0x06 => ReturnCode::Timeout,
        0x07 => ReturnCode::WrongProtocolVersion,
        0x08 => ReturnCode::WrongInterfaceVersion,
        0x09 => ReturnCode::MalformedMessage,
        0x0A => ReturnCode::WrongMessageType,
        _ => ReturnCode::NotOk,
    }
}

/// Error codes that a service may answer a call with.
#[derive(Clone, Copy, PartialEq, Eq, Structural, Debug)]
pub enum ApplicationError {
    /// `0x01`: an unspecified error.
    NotOk,
    /// `0x03`: the service does not implement the method.
    UnknownMethod,
    /// `0x08`: interface version mismatch.
    WrongInterfaceVersion,
    /// `0x09`: the payload could not be read.
    MalformedMessage,
    /// `0x20..=0x3F`: defined by the service.
    ServiceSpecific(u8),
}

impl ApplicationError {
    /// The value on the wire.
    pub open spec fn raw(self) -> u8 {
        match self {
            ApplicationError::NotOk => 0x01,
            ApplicationError::UnknownMethod => 0x03,
            ApplicationError::WrongInterfaceVersion => 0x08,
            ApplicationError::MalformedMessage => 0x09,
            ApplicationError::ServiceSpecific(code) => code,
        }
    }

    /// A service-specific error; `None` where `code` is not in `0x20..=0x3F`.
    pub fn service_specific(code: u8) -> (r: Option<Self>)
        ensures
            r == (if 0x20 <= code <= 0x3F {
                Some(ApplicationError::ServiceSpecific(code))
            } else {
                None
            }),
    {
        if code >= 0x20 && code <= 0x3F {
            Some(ApplicationError::ServiceSpecific(code))
        } else {
            None
        }
    }

    /// The value on the wire.
    pub fn as_u8(&self) -> (r: u8)
        ensures
            r == self.raw(),
    {
        match self {
            ApplicationError::NotOk => 0x01,
            ApplicationError::UnknownMethod => 0x03,
            ApplicationError::WrongInterfaceVersion => 0x08,
            ApplicationError::MalformedMessage => 0x09,
            ApplicationError::ServiceSpecific(code) => *code,
        }
    }
}

/// Every instance identifier but `Id(0)` and `Id(0xFFFF)` is given back by its raw value.
pub proof fn instance_id_round_trip(instance: InstanceId)
    requires
        instance matches InstanceId::Id(id) ==> id != 0 && id != 0xFFFF,
    ensures
        instance.raw() != 0,
        instance == (if instance.raw() == 0xFFFF {
            InstanceId::Any
        } else {
            InstanceId::Id(instance.raw())
        }),
{
}

/// A major version made from a raw value gives that value back.
pub proof fn major_version_round_trip(version: u8)
    ensures
        MajorVersion::of_raw(version).raw() == version,
{
}

/// No raw value is a method identifier and an event identifier at once.
pub proof fn methods_and_events_are_disjoint(id: u16)
    ensures
        !(MethodId::allowed(id) && EventId::allowed(id)),
        MethodId::allowed(id) || EventId::allowed(id) || id == 0xFFFF,
{
}

/// A defined return code is given back by its value on the wire, and every value that
/// is not defined reads as an unspecified error.
pub proof fn return_code_round_trip(code: ReturnCode, raw: u8)
    ensures
        return_code_of(code.raw()) == code,
        raw <= 0x0A ==> return_code_of(raw).raw() == raw,
        raw > 0x0A ==> return_code_of(raw) == ReturnCode::NotOk,
{
}

} // verus!
