//! Decoding of the 25-byte OpenDroneID messages.
//!
//! Quantities that the wire format carries in fixed-point units are kept in
//! those units, as integers: a latitude in 1e-7 degrees, an altitude in half
//! metres, a speed in quarter or half metres per second, a time in tenths of a
//! second. Each field's doc comment names its unit.

use vstd::prelude::*;
use crate::bytes::{hi_nibble, le_u16, le_u32, lo_nibble, read_le_u16, read_le_u32};
use crate::text::{decimal, hex, push_decimal, push_hex};

verus! {

/// OpenDroneID message type identifiers.
#[derive(Debug, Clone, Copy, PartialEq, Eq, Structural)]
pub enum MessageType {
    BasicId,
    Location,
    Auth,
    SelfId,
    System,
    OperatorId,
    MessagePack,
    Unknown(u8),
}

impl MessageType {
    /// The message type that a header nibble announces.
    pub open spec fn spec_from_nibble(val: u8) -> MessageType {
        if val == 0 {
            MessageType::BasicId
        } else if val == 1 {
            MessageType::Location
        } else if val == 2 {
            MessageType::Auth
        } else if val == 3 {
            MessageType::SelfId
        } else if val == 4 {
            MessageType::System
        } else if val == 5 {
            MessageType::OperatorId
        } else if val == 15 {
            MessageType::MessagePack
        } else {
            MessageType::Unknown(val)
        }
    }

    pub fn from_nibble(val: u8) -> (t: MessageType)
        ensures
            t == MessageType::spec_from_nibble(val),
    {
        match val {
            0 => MessageType::BasicId,
            1 => MessageType::Location,
            2 => MessageType::Auth,
            3 => MessageType::SelfId,
            4 => MessageType::System,
            5 => MessageType::OperatorId,
            15 => MessageType::MessagePack,
            other => MessageType::Unknown(other),
        }
    }

    /// The display name: the type's name, or `Unknown(0x..)` with the value in
    /// uppercase hexadecimal.
    pub open spec fn name(self) -> Seq<char> {
        match self {
            MessageType::BasicId => "BasicID"@,
            MessageType::Location => "Location"@,
            MessageType::Auth => "Auth"@,
            MessageType::SelfId => "SelfID"@,
            MessageType::System => "System"@,
            MessageType::OperatorId => "OperatorID"@,
            MessageType::MessagePack => "MessagePack"@,
            MessageType::Unknown(v) => "Unknown(0x"@ + hex(v as nat) + ")"@,
        }
    }

    pub fn to_string(&self) -> (s: String)
        ensures
            s@ == self.name(),
    {
        match self {
            MessageType::BasicId => String::from_str("BasicID"),
            MessageType::Location => String::from_str("Location"),
            MessageType::Auth => String::from_str("Auth"),
            MessageType::SelfId => String::from_str("SelfID"),
            MessageType::System => String::from_str("System"),
            MessageType::OperatorId => String::from_str("OperatorID"),
            MessageType::MessagePack => String::from_str("MessagePack"),
            MessageType::Unknown(v) => {
                let mut s = String::from_str("Unknown(0x");
                push_hex(&mut s, *v as u64);
                s.append(")");
                s
            },
        }
    }
}

/// ID Type for Basic ID message.
#[derive(Debug, Clone, Copy, PartialEq, Eq, Structural)]
pub enum IdType {
    Unspecified,
    SerialNumber,
    CaaRegistration,
    UtmAssigned,
    SpecificSession,
    Unknown(u8),
}

impl IdType {
    pub open spec fn spec_from_val(val: u8) -> IdType {
        if val == 0 {
            IdType::Unspecified
        } else if val == 1 {
            IdType::SerialNumber
        } else if val == 2 {
            IdType::CaaRegistration
        } else if val == 3 {
            IdType::UtmAssigned
        } else if val == 4 {
            IdType::SpecificSession
        } else {
            IdType::Unknown(val)
        }
    }

    pub fn from_val(val: u8) -> (t: IdType)
        ensures
            t == IdType::spec_from_val(val),
    {
        match val {
            0 => IdType::Unspecified,
            1 => IdType::SerialNumber,
            2 => IdType::CaaRegistration,
            3 => IdType::UtmAssigned,
            4 => IdType::SpecificSession,
            other => IdType::Unknown(other),
        }
    }

    /// The display name; an unknown value is shown in decimal.
    pub open spec fn name(self) -> Seq<char> {
        match self {
            IdType::Unspecified => "None"@,
            IdType::SerialNumber => "SerialNumber"@,
            IdType::CaaRegistration => "CAARegistration"@,
            IdType::UtmAssigned => "UTMAssigned"@,
            IdType::SpecificSession => "SpecificSession"@,
            IdType::Unknown(v) => "Unknown("@ + decimal(v as nat) + ")"@,
        }
    }

    pub fn to_string(&self) -> (s: String)
        ensures
            s@ == self.name(),
    {
        match self {
            IdType::Unspecified => String::from_str("None"),
            IdType::SerialNumber => String::from_str("SerialNumber"),
            IdType::CaaRegistration => String::from_str("CAARegistration"),
            IdType::UtmAssigned => String::from_str("UTMAssigned"),
            IdType::SpecificSession => String::from_str("SpecificSession"),
            IdType::Unknown(v) => {
                let mut s = String::from_str("Unknown(");
                push_decimal(&mut s, *v as u64);
                s.append(")");
                s
            },
        }
    }
}

/// UA (Unmanned Aircraft) type.
#[derive(Debug, Clone, Copy, PartialEq, Eq, Structural)]
pub enum UaType {
    Unspecified,
    Aeroplane,
    HelicopterOrMultirotor,
    Gyroplane,
    HybridLift,
    Ornithopter,
    Glider,
    Kite,
    FreeBalloon,
    CaptiveBalloon,
    Airship,
    FreeFallParachute,
    Rocket,
    TetheredPoweredAircraft,
    GroundObstacle,
    Other,
    Unknown(u8),
}

impl UaType {
    pub open spec fn spec_from_val(val: u8) -> UaType {
        if val == 0 {
            UaType::Unspecified
        } else if val == 1 {
            UaType::Aeroplane
        } else if val == 2 {
            UaType::HelicopterOrMultirotor
        } else if val == 3 {
            UaType::Gyroplane
        } else if val == 4 {
            UaType::HybridLift
        } else if val == 5 {
            UaType::Ornithopter
        } else if val == 6 {
            UaType::Glider
        } else if val == 7 {
            UaType::Kite
        } else if val == 8 {
            UaType::FreeBalloon
        } else if val == 9 {
            UaType::CaptiveBalloon
        } else if val == 10 {
            UaType::Airship
        } else if val == 11 {
            UaType::FreeFallParachute
        } else if val == 12 {
            UaType::Rocket
        } else if val == 13 {
            UaType::TetheredPoweredAircraft
        } else if val == 14 {
            UaType::GroundObstacle
        } else if val == 15 {
            UaType::Other
        } else {
            UaType::Unknown(val)
        }
    }

    pub fn from_val(val: u8) -> (t: UaType)
        ensures
            t == UaType::spec_from_val(val),
    {
        match val {
            0 => UaType::Unspecified,
            1 => UaType::Aeroplane,
            2 => UaType::HelicopterOrMultirotor,
            3 => UaType::Gyroplane,
            4 => UaType::HybridLift,
            5 => UaType::Ornithopter,
            6 => UaType::Glider,
            7 => UaType::Kite,
            8 => UaType::FreeBalloon,
            9 => UaType::CaptiveBalloon,
            10 => UaType::Airship,
            11 => UaType::FreeFallParachute,
            12 => UaType::Rocket,
            13 => UaType::TetheredPoweredAircraft,
            14 => UaType::GroundObstacle,
            15 => UaType::Other,
            other => UaType::Unknown(other),
        }
    }

    /// The display name: the variant's name; an unknown value is shown in decimal.
    pub open spec fn name(self) -> Seq<char> {
        match self {
            UaType::Unspecified => "None"@,
            UaType::Aeroplane => "Aeroplane"@,
            UaType::HelicopterOrMultirotor => "HelicopterOrMultirotor"@,
            UaType::Gyroplane => "Gyroplane"@,
            UaType::HybridLift => "HybridLift"@,
            UaType::Ornithopter => "Ornithopter"@,
            UaType::Glider => "Glider"@,
            UaType::Kite => "Kite"@,
            UaType::FreeBalloon => "FreeBalloon"@,
            UaType::CaptiveBalloon => "CaptiveBalloon"@,
            UaType::Airship => "Airship"@,
            UaType::FreeFallParachute => "FreeFallParachute"@,
            UaType::Rocket => "Rocket"@,
            UaType::TetheredPoweredAircraft => "TetheredPoweredAircraft"@,
            UaType::GroundObstacle => "GroundObstacle"@,
            UaType::Other => "Other"@,
            UaType::Unknown(v) => "Unknown("@ + decimal(v as nat) + ")"@,
        }
    }

    pub fn to_string(&self) -> (s: String)
        ensures
            s@ == self.name(),
    {
        match self {
            UaType::Unspecified => String::from_str("None"),
            UaType::Aeroplane => String::from_str("Aeroplane"),
            UaType::HelicopterOrMultirotor => String::from_str("HelicopterOrMultirotor"),
            UaType::Gyroplane => String::from_str("Gyroplane"),
            UaType::HybridLift => String::from_str("HybridLift"),
            UaType::Ornithopter => String::from_str("Ornithopter"),
            UaType::Glider => String::from_str("Glider"),
            UaType::Kite => String::from_str("Kite"),
            UaType::FreeBalloon => String::from_str("FreeBalloon"),
            UaType::CaptiveBalloon => String::from_str("CaptiveBalloon"),
            UaType::Airship => String::from_str("Airship"),
            UaType::FreeFallParachute => String::from_str("FreeFallParachute"),
            UaType::Rocket => String::from_str("Rocket"),
            UaType::TetheredPoweredAircraft => String::from_str("TetheredPoweredAircraft"),
            UaType::GroundObstacle => String::from_str("GroundObstacle"),
            UaType::Other => String::from_str("Other"),
            UaType::Unknown(v) => {
                let mut s = String::from_str("Unknown(");
                push_decimal(&mut s, *v as u64);
                s.append(")");
                s
            },
        }
    }
}

/// Decoded Basic ID message.
#[derive(Debug)]
pub struct BasicId {
    pub id_type: IdType,
    pub ua_type: UaType,
    pub ua_id: String,
}

/// What a Basic ID message says, with the identifier as characters.
pub struct BasicIdModel {
    pub id_type: IdType,
    pub ua_type: UaType,
    pub ua_id: Seq<char>,
}

impl View for BasicId {
    type V = BasicIdModel;

    open spec fn view(&self) -> BasicIdModel {
        BasicIdModel { id_type: self.id_type, ua_type: self.ua_type, ua_id: self.ua_id@ }
    }
}

impl Clone for BasicId {
    fn clone(&self) -> (c: Self)
        ensures
            c == *self,
    {
        BasicId { id_type: self.id_type, ua_type: self.ua_type, ua_id: self.ua_id.clone() }
    }
}

/// Decoded Location/Vector message.
#[derive(Debug, Clone, Copy, PartialEq, Eq, Structural)]
pub struct Location {
    pub status: u8,
    /// Track direction, whole degrees clockwise from north (0..=435 on the wire).
    pub direction_deg: u16,
    /// Ground speed in units of 0.25 m/s.
    pub speed_horizontal_quarter_ms: u16,
    /// Vertical speed in units of 0.5 m/s.
    pub speed_vertical_half_ms: i8,
    /// Latitude in units of 1e-7 degrees.
    pub latitude_e7: i32,
    /// Longitude in units of 1e-7 degrees.
    pub longitude_e7: i32,
    /// Pressure altitude in units of 0.5 m.
    pub altitude_pressure_half_m: i32,
    /// Geodetic altitude in units of 0.5 m.
    pub altitude_geodetic_half_m: i32,
    /// Height above take-off in units of 0.5 m.
    pub height_above_takeoff_half_m: i32,
    /// Time since the start of the hour in units of 0.1 s.
    pub timestamp_tenths: u16,
}

/// Decoded System message.
#[derive(Debug, Clone, Copy, PartialEq, Eq, Structural)]
pub struct System {
    /// Operator latitude in units of 1e-7 degrees.
    pub operator_latitude_e7: i32,
    /// Operator longitude in units of 1e-7 degrees.
    pub operator_longitude_e7: i32,
    pub area_count: u16,
    /// Area radius in metres.
    pub area_radius: u16,
    /// Area ceiling in units of 0.5 m.
    pub area_ceiling_half_m: i32,
    /// Area floor in units of 0.5 m.
    pub area_floor_half_m: i32,
    pub classification_type: u8,
    /// Operator geodetic altitude in units of 0.5 m.
    pub operator_altitude_geo_half_m: i32,
}

/// Decoded Operator ID message.
#[derive(Debug)]
pub struct OperatorId {
    pub operator_id_type: u8,
    pub operator_id: String,
}

/// What an Operator ID message says, with the identifier as characters.
pub struct OperatorIdModel {
    pub operator_id_type: u8,
    pub operator_id: Seq<char>,
}

impl View for OperatorId {
    type V = OperatorIdModel;

    open spec fn view(&self) -> OperatorIdModel {
        OperatorIdModel { operator_id_type: self.operator_id_type, operator_id: self.operator_id@ }
    }
}

impl Clone for OperatorId {
    fn clone(&self) -> (c: Self)
        ensures
            c == *self,
    {
        OperatorId { operator_id_type: self.operator_id_type, operator_id: self.operator_id.clone() }
    }
}

/// Decoded Self-ID message.
#[derive(Debug)]
pub struct SelfId {
    pub description_type: u8,
    pub description: String,
}

/// What a Self-ID message says, with the description as characters.
pub struct SelfIdModel {
    pub description_type: u8,
    pub description: Seq<char>,
}

impl View for SelfId {
    type V = SelfIdModel;

    open spec fn view(&self) -> SelfIdModel {
        SelfIdModel { description_type: self.description_type, description: self.description@ }
    }
}

/// Decoded Auth message (partial: stores the raw page data).
#[derive(Debug)]
pub struct Auth {
    pub auth_type: u8,
    pub page_number: u8,
    pub page_count: u8,
    pub length: u8,
    pub timestamp: u32,
    pub data: Vec<u8>,
}

/// What an Auth message page says, with its data as a byte sequence.
pub struct AuthModel {
    pub auth_type: u8,
    pub page_number: u8,
    pub page_count: u8,
    pub length: u8,
    pub timestamp: u32,
    pub data: Seq<u8>,
}

impl View for Auth {
    type V = AuthModel;

    open spec fn view(&self) -> AuthModel {
        AuthModel {
            auth_type: self.auth_type,
            page_number: self.page_number,
            page_count: self.page_count,
            length: self.length,
            timestamp: self.timestamp,
            data: self.data@,
        }
    }
}

/// A decoded OpenDroneID message.
#[derive(Debug)]
pub enum DroneIdMessage {
    BasicId(BasicId),
    Location(Location),
    Auth(Auth),
    SelfId(SelfId),
    System(System),
    OperatorId(OperatorId),
    Unknown { msg_type: u8, proto_version: u8 },
}

/// What a message says: a [`DroneIdMessage`] with its text and data as sequences.
pub enum MessageModel {
    BasicId(BasicIdModel),
    Location(Location),
    Auth(AuthModel),
    SelfId(SelfIdModel),
    System(System),
    OperatorId(OperatorIdModel),
    Unknown { msg_type: u8, proto_version: u8 },
}

impl View for DroneIdMessage {
    type V = MessageModel;

    open spec fn view(&self) -> MessageModel {
        match self {
            DroneIdMessage::BasicId(b) => MessageModel::BasicId(b@),
            DroneIdMessage::Location(l) => MessageModel::Location(*l),
            DroneIdMessage::Auth(a) => MessageModel::Auth(a@),
            DroneIdMessage::SelfId(s) => MessageModel::SelfId(s@),
            DroneIdMessage::System(s) => MessageModel::System(*s),
            DroneIdMessage::OperatorId(o) => MessageModel::OperatorId(o@),
            DroneIdMessage::Unknown { msg_type, proto_version } => MessageModel::Unknown {
                msg_type: *msg_type,
                proto_version: *proto_version,
            },
        }
    }
}

impl MessageModel {
    /// The type of a message; an unknown message reports the type its header named.
    pub open spec fn msg_type(self) -> MessageType {
        match self {
            MessageModel::BasicId(_) => MessageType::BasicId,
            MessageModel::Location(_) => MessageType::Location,
            MessageModel::Auth(_) => MessageType::Auth,
            MessageModel::SelfId(_) => MessageType::SelfId,
            MessageModel::System(_) => MessageType::System,
            MessageModel::OperatorId(_) => MessageType::OperatorId,
            MessageModel::Unknown { msg_type, .. } => MessageType::spec_from_nibble(msg_type),
        }
    }
}

impl DroneIdMessage {
    pub fn msg_type(&self) -> (t: MessageType)
        ensures
            t == self@.msg_type(),
    {
        match self {
            DroneIdMessage::BasicId(_) => MessageType::BasicId,
            DroneIdMessage::Location(_) => MessageType::Location,
            DroneIdMessage::Auth(_) => MessageType::Auth,
            DroneIdMessage::SelfId(_) => MessageType::SelfId,
            DroneIdMessage::System(_) => MessageType::System,
            DroneIdMessage::OperatorId(_) => MessageType::OperatorId,
            DroneIdMessage::Unknown { msg_type, .. } => MessageType::from_nibble(*msg_type),
        }
    }
}

/// `String::from_utf8_lossy`: the text of a byte string, with each invalid
/// UTF-8 sequence replaced by U+FFFD.
pub uninterp spec fn utf8_lossy(bytes: Seq<u8>) -> Seq<char>;

/// Calls `String::from_utf8_lossy`. Its result is named by `utf8_lossy`; as its
/// documentation says, valid UTF-8 comes back decoded as it stands. Every
/// invalid sequence becomes U+FFFD, and in valid UTF-8 only the zero byte
/// encodes U+0000, so bytes without a zero byte give text without a NUL.
#[verifier::external_body]
fn text_from_utf8_lossy(bytes: &[u8]) -> (s: String)
    ensures
        s@ == utf8_lossy(bytes@),
        vstd::utf8::valid_utf8(bytes@) ==> s@ == vstd::utf8::decode_utf8(bytes@),
        (forall|i: int| 0 <= i < bytes@.len() ==> bytes@[i] != 0) ==> !s@.contains('\0'),
{
    String::from_utf8_lossy(bytes).into_owned()
}

/// The length of the part of `bytes` before its first zero byte (all of it
/// when there is none).
pub open spec fn nul_terminated_len(bytes: Seq<u8>) -> nat
    decreases bytes.len(),
{
    if bytes.len() == 0 {
        0
    } else if bytes[0] == 0 {
        0
    } else {
        1 + nul_terminated_len(bytes.drop_first())
    }
}

/// The bytes of a zero-terminated string field before its first zero byte.
pub open spec fn field_bytes(bytes: Seq<u8>) -> Seq<u8> {
    bytes.take(nul_terminated_len(bytes) as int)
}

/// The text of a zero-terminated string field: its bytes before the first
/// zero byte, decoded as UTF-8 when they are valid UTF-8 and read with
/// invalid sequences replaced otherwise.
pub open spec fn field_text(bytes: Seq<u8>) -> Seq<char> {
    let p = field_bytes(bytes);
    if vstd::utf8::valid_utf8(p) {
        vstd::utf8::decode_utf8(p)
    } else {
        utf8_lossy(p)
    }
}

/// The characters that ASCII bytes stand for, one per byte.
pub open spec fn ascii_text(bytes: Seq<u8>) -> Seq<char> {
    bytes.map_values(|b: u8| b as char)
}

proof fn lemma_nul_terminated_len(bytes: Seq<u8>, i: int)
    requires
        0 <= i <= bytes.len(),
        forall|k: int| 0 <= k < i ==> bytes[k] != 0,
        i == bytes.len() || bytes[i] == 0,
    ensures
        nul_terminated_len(bytes) == i,
    decreases i,
{
    if i > 0 {
        lemma_nul_terminated_len(bytes.drop_first(), i - 1);
    }
}

/// Reads a zero-terminated string field: the bytes before the first zero byte,
/// as text, with each invalid UTF-8 sequence replaced by U+FFFD. The text never
/// holds a NUL character.
pub fn extract_ascii_string(bytes: &[u8]) -> (s: String)
    ensures
        s@ == utf8_lossy(field_bytes(bytes@)),
        s@ == field_text(bytes@),
        !s@.contains('\0'),
        (forall|i: int| 0 <= i < field_bytes(bytes@).len() ==> field_bytes(bytes@)[i] < 128) ==> s@
            == ascii_text(field_bytes(bytes@)),
{
    let mut end: usize = 0;
    while end < bytes.len() && bytes[end] != 0
        invariant
            end <= bytes@.len(),
            forall|k: int| 0 <= k < end ==> bytes@[k] != 0,
        decreases bytes@.len() - end,
    {
        end = end + 1;
    }
    proof {
        lemma_nul_terminated_len(bytes@, end as int);
    }
    let head = vstd::slice::slice_subrange(bytes, 0, end);
    assert(head@ =~= bytes@.take(end as int));
    assert forall|i: int| 0 <= i < head@.len() implies head@[i] != 0 by {
        assert(head@[i] == bytes@[i]);
    }
    let s = text_from_utf8_lossy(head);
    proof {
        if forall|i: int| 0 <= i < field_bytes(bytes@).len() ==> field_bytes(bytes@)[i] < 128 {
            field_text_ascii(bytes@);
        }
    }
    s
}

// ---------------------------------------------------------------------------
// The meaning of each message, byte by byte
// ---------------------------------------------------------------------------

/// A 16-bit altitude-like field (0.5 m resolution, offset -1000 m), in half metres.
pub open spec fn half_metres(lo: u8, hi: u8) -> int {
    le_u16(lo, hi) - 2000
}

pub open spec fn basic_id_of(d: Seq<u8>) -> BasicIdModel {
    BasicIdModel {
        id_type: IdType::spec_from_val(hi_nibble(d[1])),
        ua_type: UaType::spec_from_val(lo_nibble(d[1])),
        ua_id: field_text(d.subrange(2, 22)),
    }
}

pub open spec fn location_of(d: Seq<u8>) -> Location {
    Location {
        status: hi_nibble(d[1]),
        direction_deg: (if (d[1] / 2) % 2 == 1 { d[2] + 180 } else { d[2] as int }) as u16,
        speed_horizontal_quarter_ms: (if d[1] % 2 == 0 { d[3] as int } else { 3 * d[3] + 255 }) as u16,
        speed_vertical_half_ms: d[4] as i8,
        latitude_e7: le_u32(d[5], d[6], d[7], d[8]) as i32,
        longitude_e7: le_u32(d[9], d[10], d[11], d[12]) as i32,
        altitude_pressure_half_m: half_metres(d[13], d[14]) as i32,
        altitude_geodetic_half_m: half_metres(d[15], d[16]) as i32,
        height_above_takeoff_half_m: half_metres(d[17], d[18]) as i32,
        timestamp_tenths: le_u16(d[21], d[22]) as u16,
    }
}

pub open spec fn auth_of(d: Seq<u8>) -> AuthModel {
    if lo_nibble(d[1]) == 0 {
        AuthModel {
            auth_type: hi_nibble(d[1]),
            page_number: 0,
            page_count: d[2],
            length: d[3],
            timestamp: le_u32(d[4], d[5], d[6], d[7]) as u32,
            data: d.subrange(8, 25),
        }
    } else {
        AuthModel {
            auth_type: hi_nibble(d[1]),
            page_number: lo_nibble(d[1]),
            page_count: 0,
            length: 0,
            timestamp: 0,
            data: d.subrange(2, 25),
        }
    }
}

pub open spec fn self_id_of(d: Seq<u8>) -> SelfIdModel {
    SelfIdModel { description_type: d[1], description: field_text(d.subrange(2, 25)) }
}

pub open spec fn system_of(d: Seq<u8>) -> System {
    System {
        operator_latitude_e7: le_u32(d[2], d[3], d[4], d[5]) as i32,
        operator_longitude_e7: le_u32(d[6], d[7], d[8], d[9]) as i32,
        area_count: le_u16(d[10], d[11]) as u16,
        area_radius: (d[12] * 10) as u16,
        area_ceiling_half_m: half_metres(d[13], d[14]) as i32,
        area_floor_half_m: half_metres(d[15], d[16]) as i32,
        classification_type: hi_nibble(d[1]),
        operator_altitude_geo_half_m: half_metres(d[21], d[22]) as i32,
    }
}

pub open spec fn operator_id_of(d: Seq<u8>) -> OperatorIdModel {
    OperatorIdModel { operator_id_type: d[1], operator_id: field_text(d.subrange(2, 22)) }
}

/// The message that a 25-byte OpenDroneID message encodes: the header's upper
/// nibble names the type, its lower nibble the protocol version.
pub open spec fn message_of(d: Seq<u8>) -> MessageModel {
    match MessageType::spec_from_nibble(hi_nibble(d[0])) {
        MessageType::BasicId => MessageModel::BasicId(basic_id_of(d)),
        MessageType::Location => MessageModel::Location(location_of(d)),
        MessageType::Auth => MessageModel::Auth(auth_of(d)),
        MessageType::SelfId => MessageModel::SelfId(self_id_of(d)),
        MessageType::System => MessageModel::System(system_of(d)),
        MessageType::OperatorId => MessageModel::OperatorId(operator_id_of(d)),
        _ => MessageModel::Unknown { msg_type: hi_nibble(d[0]), proto_version: lo_nibble(d[0]) },
    }
}

// ---------------------------------------------------------------------------
// Decoders
// ---------------------------------------------------------------------------

fn half_metres_at(d: &[u8; 25], at: usize) -> (v: i32)
    requires
        at + 2 <= 25,
    ensures
        v == half_metres(d@[at as int], d@[at + 1]),
{
    read_le_u16(d.as_slice(), at) as i32 - 2000
}

fn decode_basic_id(data: &[u8; 25]) -> (m: DroneIdMessage)
    ensures
        m@ == MessageModel::BasicId(basic_id_of(data@)),
{
    let id_type = IdType::from_val(data[1] / 16);
    let ua_type = UaType::from_val(data[1] % 16);
    let field = vstd::slice::slice_subrange(data.as_slice(), 2, 22);
    let ua_id = extract_ascii_string(field);
    DroneIdMessage::BasicId(BasicId { id_type, ua_type, ua_id })
}

fn decode_location(data: &[u8; 25]) -> (m: DroneIdMessage)
    ensures
        m@ == MessageModel::Location(location_of(data@)),
{
    let d = data.as_slice();
    let status: u8 = data[1] / 16;
    let speed_multiplier: u8 = data[1] % 2;
    let direction_deg: u16 = if (data[1] / 2) % 2 == 1 {
        data[2] as u16 + 180
    } else {
        data[2] as u16
    };
    let speed_horizontal_quarter_ms: u16 = if speed_multiplier == 0 {
        data[3] as u16
    } else {
        3 * (data[3] as u16) + 255
    };
    let speed_vertical_half_ms: i8 = #[verifier::truncate] (data[4] as i8);
    let latitude_e7: i32 = read_le_u32(d, 5) as i32;
    let longitude_e7: i32 = read_le_u32(d, 9) as i32;
    let altitude_pressure_half_m: i32 = half_metres_at(data, 13);
    let altitude_geodetic_half_m: i32 = half_metres_at(data, 15);
    let height_above_takeoff_half_m: i32 = half_metres_at(data, 17);
    let timestamp_tenths: u16 = read_le_u16(d, 21);
    DroneIdMessage::Location(Location {
        status,
        direction_deg,
        speed_horizontal_quarter_ms,
        speed_vertical_half_ms,
        latitude_e7,
        longitude_e7,
        altitude_pressure_half_m,
        altitude_geodetic_half_m,
        height_above_takeoff_half_m,
        timestamp_tenths,
    })
}

fn decode_auth(data: &[u8; 25]) -> (m: DroneIdMessage)
    ensures
        m@ == MessageModel::Auth(auth_of(data@)),
{
    let d = data.as_slice();
    let auth_type: u8 = data[1] / 16;
    let page_number: u8 = data[1] % 16;
    if page_number == 0 {
        let page_count: u8 = data[2];
        let length: u8 = data[3];
        let timestamp: u32 = read_le_u32(d, 4);
        let auth_data = vstd::slice::slice_to_vec(vstd::slice::slice_subrange(d, 8, 25));
        DroneIdMessage::Auth(Auth { auth_type, page_number, page_count, length, timestamp, data: auth_data })
    } else {
        let auth_data = vstd::slice::slice_to_vec(vstd::slice::slice_subrange(d, 2, 25));
        DroneIdMessage::Auth(Auth {
            auth_type,
            page_number,
            page_count: 0,
            length: 0,
            timestamp: 0,
            data: auth_data,
        })
    }
}

fn decode_self_id(data: &[u8; 25]) -> (m: DroneIdMessage)
    ensures
        m@ == MessageModel::SelfId(self_id_of(data@)),
{
    let description_type: u8 = data[1];
    let description = extract_ascii_string(vstd::slice::slice_subrange(data.as_slice(), 2, 25));
    DroneIdMessage::SelfId(SelfId { description_type, description })
}

fn decode_system(data: &[u8; 25]) -> (m: DroneIdMessage)
    ensures
        m@ == MessageModel::System(system_of(data@)),
{
    let d = data.as_slice();
    let classification_type: u8 = data[1] / 16;
    let operator_latitude_e7: i32 = read_le_u32(d, 2) as i32;
    let operator_longitude_e7: i32 = read_le_u32(d, 6) as i32;
    let area_count: u16 = read_le_u16(d, 10);
    let area_radius: u16 = data[12] as u16 * 10;
    let area_ceiling_half_m: i32 = half_metres_at(data, 13);
    let area_floor_half_m: i32 = half_metres_at(data, 15);
    let operator_altitude_geo_half_m: i32 = half_metres_at(data, 21);
    DroneIdMessage::System(System {
        operator_latitude_e7,
        operator_longitude_e7,
        area_count,
        area_radius,
        area_ceiling_half_m,
        area_floor_half_m,
        classification_type,
        operator_altitude_geo_half_m,
    })
}

fn decode_operator_id(data: &[u8; 25]) -> (m: DroneIdMessage)
    ensures
        m@ == MessageModel::OperatorId(operator_id_of(data@)),
{
    let operator_id_type: u8 = data[1];
    let operator_id = extract_ascii_string(vstd::slice::slice_subrange(data.as_slice(), 2, 22));
    DroneIdMessage::OperatorId(OperatorId { operator_id_type, operator_id })
}

/// Decode a 25-byte OpenDroneID message.
pub fn decode_message(data: &[u8; 25]) -> (m: DroneIdMessage)
    ensures
        m@ == message_of(data@),
{
    let header: u8 = data[0];
    let msg_type_nibble: u8 = header / 16;
    let proto_version: u8 = header % 16;
    match MessageType::from_nibble(msg_type_nibble) {
        MessageType::BasicId => decode_basic_id(data),
        MessageType::Location => decode_location(data),
        MessageType::Auth => decode_auth(data),
        MessageType::SelfId => decode_self_id(data),
        MessageType::System => decode_system(data),
        MessageType::OperatorId => decode_operator_id(data),
        _ => DroneIdMessage::Unknown { msg_type: msg_type_nibble, proto_version },
    }
}

/// A Message Pack in a single 25-byte frame: there is no room in it for the
/// 25-byte sub-messages, so it is reported as an unknown message of type 0xF.
fn decode_message_pack(data: &[u8; 25]) -> (v: Vec<DroneIdMessage>)
    requires
        hi_nibble(data@[0]) == 15,
    ensures
        v@.len() == 1,
        v@[0]@ == (MessageModel::Unknown { msg_type: 15, proto_version: lo_nibble(data@[0]) }),
{
    let mut v = Vec::new();
    v.push(DroneIdMessage::Unknown { msg_type: 15, proto_version: data[0] % 16 });
    v
}

/// Decode multiple messages from a single 25-byte payload if it's a Message Pack,
/// otherwise decode the single message. Either way the result is the one
/// message that `decode_message` gives.
pub fn decode_all(data: &[u8; 25]) -> (v: Vec<DroneIdMessage>)
    ensures
        v@.len() == 1,
        v@[0]@ == message_of(data@),
{
    if MessageType::from_nibble(data[0] / 16) == MessageType::MessagePack {
        decode_message_pack(data)
    } else {
        let mut v = Vec::new();
        v.push(decode_message(data));
        v
    }
}

// ---------------------------------------------------------------------------
// Laws
// ---------------------------------------------------------------------------

/// The type of a decoded message is the type that its header names, Message
/// Packs and unknown types included.
pub proof fn decoded_type_matches_header(d: Seq<u8>)
    requires
        d.len() == 25,
    ensures
        message_of(d).msg_type() == MessageType::spec_from_nibble(hi_nibble(d[0])),
{
}

/// A text field ends at its first zero byte: what follows is ignored.
pub proof fn field_text_stops_at_nul(t: Seq<u8>, rest: Seq<u8>)
    requires
        forall|i: int| 0 <= i < t.len() ==> t[i] != 0,
    ensures
        field_bytes(t + seq![0u8] + rest) == t,
        field_text(t + seq![0u8] + rest) == field_text(t),
{
    let b = t + seq![0u8] + rest;
    assert forall|k: int| 0 <= k < t.len() implies b[k] != 0 by {
        assert(b[k] == t[k]);
    }
    lemma_nul_terminated_len(b, t.len() as int);
    assert(b.take(t.len() as int) =~= t);
    field_text_without_nul(t);
}

/// A Location message says, byte by byte: status in the upper half of byte 1,
/// vertical speed in byte 4, latitude in bytes 5-8 and longitude in bytes 9-12
/// (little-endian, two's complement), pressure altitude in bytes 13-14,
/// geodetic altitude in bytes 15-16 and height above take-off in bytes 17-18
/// (little-endian, half metres above -1000 m), and the timestamp in bytes 21-22.
pub proof fn location_fields_from_bytes(d: Seq<u8>)
    requires
        d.len() == 25,
        d[0] / 16 == 1,
    ensures
        match message_of(d) {
            MessageModel::Location(l) => {
                &&& l.status == d[1] / 16
                &&& l.direction_deg == d[2] + 180 * ((d[1] / 2) % 2)
                &&& (d[1] % 2 == 0 ==> l.speed_horizontal_quarter_ms == d[3])
                &&& (d[1] % 2 == 1 ==> l.speed_horizontal_quarter_ms == 3 * d[3] + 255)
                &&& l.speed_vertical_half_ms == d[4] as i8
                &&& l.latitude_e7 == (d[5] + 256 * d[6] + 65536 * d[7] + 16777216 * d[8]) as i32
                &&& l.longitude_e7 == (d[9] + 256 * d[10] + 65536 * d[11] + 16777216 * d[12]) as i32
                &&& l.altitude_pressure_half_m == d[13] + 256 * d[14] - 2000
                &&& l.altitude_geodetic_half_m == d[15] + 256 * d[16] - 2000
                &&& l.height_above_takeoff_half_m == d[17] + 256 * d[18] - 2000
                &&& l.timestamp_tenths == d[21] + 256 * d[22]
            },
            _ => false,
        },
{
}

/// Each altitude of a Location message depends on its own two bytes only:
/// two Location messages that agree on bytes 15-16 have the same geodetic
/// altitude, whatever their other bytes (the pressure altitude included), and
/// likewise bytes 13-14 for the pressure altitude and 17-18 for the height.
pub proof fn location_altitudes_independent(d: Seq<u8>, e: Seq<u8>)
    requires
        d.len() == 25,
        e.len() == 25,
        d[0] / 16 == 1,
        e[0] / 16 == 1,
    ensures
        match (message_of(d), message_of(e)) {
            (MessageModel::Location(a), MessageModel::Location(b)) => {
                &&& (d[15] == e[15] && d[16] == e[16]) ==> a.altitude_geodetic_half_m
                    == b.altitude_geodetic_half_m
                &&& (d[13] == e[13] && d[14] == e[14]) ==> a.altitude_pressure_half_m
                    == b.altitude_pressure_half_m
                &&& (d[17] == e[17] && d[18] == e[18]) ==> a.height_above_takeoff_half_m
                    == b.height_above_takeoff_half_m
            },
            _ => false,
        },
{
    location_fields_from_bytes(d);
    location_fields_from_bytes(e);
}

/// A System message says, byte by byte: operator latitude in bytes 2-5 and
/// longitude in bytes 6-9, area count in bytes 10-11, area radius in tens of
/// metres in byte 12, area ceiling in bytes 13-14, area floor in bytes 15-16,
/// classification in the upper half of byte 1, and operator altitude in bytes
/// 21-22 (altitudes in half metres above -1000 m).
pub proof fn system_fields_from_bytes(d: Seq<u8>)
    requires
        d.len() == 25,
        d[0] / 16 == 4,
    ensures
        match message_of(d) {
            MessageModel::System(s) => {
                &&& s.operator_latitude_e7 == (d[2] + 256 * d[3] + 65536 * d[4] + 16777216 * d[5]) as i32
                &&& s.operator_longitude_e7 == (d[6] + 256 * d[7] + 65536 * d[8] + 16777216 * d[9]) as i32
                &&& s.area_count == d[10] + 256 * d[11]
                &&& s.area_radius == 10 * d[12]
                &&& s.area_ceiling_half_m == d[13] + 256 * d[14] - 2000
                &&& s.area_floor_half_m == d[15] + 256 * d[16] - 2000
                &&& s.classification_type == d[1] / 16
                &&& s.operator_altitude_geo_half_m == d[21] + 256 * d[22] - 2000
            },
            _ => false,
        },
{
}

/// A Basic ID message carries the ID type in the upper half of byte 1, the UA
/// type in its lower half, and the identifier in bytes 2-21, read up to the
/// first zero byte.
pub proof fn basic_id_fields_from_bytes(d: Seq<u8>)
    requires
        d.len() == 25,
        d[0] / 16 == 0,
    ensures
        match message_of(d) {
            MessageModel::BasicId(b) => {
                &&& b.id_type == IdType::spec_from_val(d[1] / 16)
                &&& b.ua_type == UaType::spec_from_val(d[1] % 16)
                &&& b.ua_id == field_text(d.subrange(2, 22))
                &&& (d[1] / 16 == 1 ==> b.id_type == IdType::SerialNumber)
                &&& (d[1] / 16 == 2 ==> b.id_type == IdType::CaaRegistration)
            },
            _ => false,
        },
{
}

/// A Self-ID message carries its description type in byte 1 and its text in
/// bytes 2-24, read up to the first zero byte.
pub proof fn self_id_fields_from_bytes(d: Seq<u8>)
    requires
        d.len() == 25,
        d[0] / 16 == 3,
    ensures
        match message_of(d) {
            MessageModel::SelfId(m) => {
                &&& m.description_type == d[1]
                &&& m.description == field_text(d.subrange(2, 25))
            },
            _ => false,
        },
{
}

/// An Auth message carries its type in the upper half of byte 1 and the page
/// number in its lower half. Page 0 holds the page count (byte 2), the length
/// (byte 3), the timestamp (bytes 4-7, little-endian) and 17 bytes of data; any
/// other page holds 23 bytes of data from byte 2.
pub proof fn auth_fields_from_bytes(d: Seq<u8>)
    requires
        d.len() == 25,
        d[0] / 16 == 2,
    ensures
        match message_of(d) {
            MessageModel::Auth(a) => {
                &&& a.auth_type == d[1] / 16
                &&& a.page_number == d[1] % 16
                &&& (d[1] % 16 == 0 ==> {
                    &&& a.page_count == d[2]
                    &&& a.length == d[3]
                    &&& a.timestamp == d[4] + 256 * d[5] + 65536 * d[6] + 16777216 * d[7]
                    &&& a.data == d.subrange(8, 25)
                })
                &&& (d[1] % 16 != 0 ==> a.data == d.subrange(2, 25) && a.data.len() == 23)
            },
            _ => false,
        },
{
}

/// A header whose upper half names no known message type (6 to 14), or a
/// Message Pack (15), decodes to an unknown message that keeps the type and the
/// protocol version from the header.
pub proof fn unknown_type_kept(d: Seq<u8>)
    requires
        d.len() == 25,
        d[0] / 16 >= 6,
    ensures
        message_of(d) == (MessageModel::Unknown { msg_type: d[0] / 16, proto_version: d[0] % 16 }),
{
}

/// An Operator ID message carries its type in byte 1 and its identifier in
/// bytes 2-21, read up to the first zero byte.
pub proof fn operator_id_fields_from_bytes(d: Seq<u8>)
    requires
        d.len() == 25,
        d[0] / 16 == 5,
    ensures
        match message_of(d) {
            MessageModel::OperatorId(o) => {
                &&& o.operator_id_type == d[1]
                &&& o.operator_id == field_text(d.subrange(2, 22))
            },
            _ => false,
        },
{
}

/// A text field without a zero byte is read whole.
pub proof fn field_text_without_nul(t: Seq<u8>)
    requires
        forall|i: int| 0 <= i < t.len() ==> t[i] != 0,
    ensures
        field_bytes(t) == t,
{
    lemma_nul_terminated_len(t, t.len() as int);
    assert(t.take(t.len() as int) =~= t);
}

/// ASCII bytes read as text are the characters they stand for, one per byte;
/// the text holds no NUL character.
pub proof fn field_text_ascii(bytes: Seq<u8>)
    requires
        forall|i: int| 0 <= i < field_bytes(bytes).len() ==> field_bytes(bytes)[i] < 128,
    ensures
        field_text(bytes) == ascii_text(field_bytes(bytes)),
        !field_text(bytes).contains('\0'),
{
    let p = field_bytes(bytes);
    let chars = ascii_text(p);
    assert forall|i: int| 0 <= i < chars.len() implies '\0' <= #[trigger] chars[i] <= '\u{7f}' by {
        assert(chars[i] == p[i] as char);
    }
    vstd::utf8::is_ascii_chars_encode_utf8(chars);
    assert forall|i: int| 0 <= i < p.len() implies p[i] == #[trigger] vstd::utf8::encode_utf8(chars)[i] by {
        assert(chars[i] == p[i] as char);
        assert((chars[i] as u8) == p[i]);
    }
    assert(vstd::utf8::encode_utf8(chars) =~= p);
    vstd::utf8::encode_utf8_valid_utf8(chars);
    vstd::utf8::encode_utf8_decode_utf8(chars);
    assert(field_text(bytes) == chars);
    let n = nul_terminated_len(bytes);
    lemma_nul_terminated_len_prefix(bytes);
    if chars.contains('\0') {
        let k = choose|k: int| 0 <= k < chars.len() && chars[k] == '\0';
        assert(chars[k] == p[k] as char);
        assert(p[k] == bytes[k]);
    }
}

proof fn lemma_nul_terminated_len_prefix(bytes: Seq<u8>)
    ensures
        nul_terminated_len(bytes) <= bytes.len(),
        forall|k: int| 0 <= k < nul_terminated_len(bytes) ==> bytes[k] != 0,
    decreases bytes.len(),
{
    if bytes.len() > 0 && bytes[0] != 0 {
        lemma_nul_terminated_len_prefix(bytes.drop_first());
        assert forall|k: int| 0 <= k < nul_terminated_len(bytes) implies bytes[k] != 0 by {
            if k > 0 {
                assert(bytes[k] == bytes.drop_first()[k - 1]);
            }
        }
    }
}

} // verus!
