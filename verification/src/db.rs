//! Sighting rows for the database log.
//!
//! Location and System quantities keep the fixed-point units of the decoded
//! messages (see `remoteid::decode`); the store converts them to metres,
//! degrees and seconds as it writes them.

use vstd::prelude::*;
use crate::output::{format_mac, mac_text};
use crate::remoteid::decode::{location_fields_from_bytes, message_of, system_fields_from_bytes, DroneIdMessage, MessageModel};

verus! {

/// One logged message: who sent it, how it was heard, and the columns of its
/// message type (the others are empty).
#[derive(Debug)]
pub struct SightingRow {
    pub transport: &'static str,
    pub mac: String,
    pub rssi: i8,
    pub counter: u8,
    pub msg_type: String,
    // BasicId
    pub id_type: Option<String>,
    pub ua_type: Option<String>,
    pub ua_id: Option<String>,
    // Location
    pub status: Option<i16>,
    pub direction_deg: Option<u16>,
    pub speed_h_quarter_ms: Option<u16>,
    pub speed_v_half_ms: Option<i8>,
    pub lat_e7: Option<i32>,
    pub lon_e7: Option<i32>,
    pub alt_press_half_m: Option<i32>,
    pub alt_geo_half_m: Option<i32>,
    pub height_agl_half_m: Option<i32>,
    pub loc_ts_tenths: Option<u16>,
    // System
    pub op_lat_e7: Option<i32>,
    pub op_lon_e7: Option<i32>,
    pub area_count: Option<i16>,
    pub area_radius: Option<i16>,
    pub area_ceil_half_m: Option<i32>,
    pub area_floor_half_m: Option<i32>,
    pub class_type: Option<i16>,
    pub op_alt_geo_half_m: Option<i32>,
    // OperatorId
    pub op_id_type: Option<i16>,
    pub op_id: Option<String>,
    // SelfId
    pub desc_type: Option<i16>,
    pub description: Option<String>,
    // Auth
    pub auth_type: Option<i16>,
    pub auth_page: Option<i16>,
    pub auth_pages: Option<i16>,
    pub auth_len: Option<i16>,
    pub auth_ts: Option<i32>,
    pub auth_data: Option<Vec<u8>>,
}

/// The row carries no Basic ID columns.
pub open spec fn no_basic_id(r: SightingRow) -> bool {
    r.id_type is None && r.ua_type is None && r.ua_id is None
}

/// The row carries no Location columns.
pub open spec fn no_location(r: SightingRow) -> bool {
    &&& r.status is None && r.direction_deg is None && r.speed_h_quarter_ms is None
    &&& r.speed_v_half_ms is None && r.lat_e7 is None && r.lon_e7 is None
    &&& r.alt_press_half_m is None && r.alt_geo_half_m is None && r.height_agl_half_m is None
    &&& r.loc_ts_tenths is None
}

/// The row carries no System columns.
pub open spec fn no_system(r: SightingRow) -> bool {
    &&& r.op_lat_e7 is None && r.op_lon_e7 is None && r.area_count is None && r.area_radius is None
    &&& r.area_ceil_half_m is None && r.area_floor_half_m is None && r.class_type is None
    &&& r.op_alt_geo_half_m is None
}

/// The row carries no Operator ID columns.
pub open spec fn no_operator_id(r: SightingRow) -> bool {
    r.op_id_type is None && r.op_id is None
}

/// The row carries no Self-ID columns.
pub open spec fn no_self_id(r: SightingRow) -> bool {
    r.desc_type is None && r.description is None
}

/// The row carries no Auth columns.
pub open spec fn no_auth(r: SightingRow) -> bool {
    &&& r.auth_type is None && r.auth_page is None && r.auth_pages is None
    &&& r.auth_len is None && r.auth_ts is None && r.auth_data is None
}

/// Whether an optional text column holds exactly `t`.
pub open spec fn text_is(c: Option<String>, t: Seq<char>) -> bool {
    c matches Some(s) && s@ == t
}

/// The columns that a message fills, and only those.
pub open spec fn message_columns(r: SightingRow, m: MessageModel) -> bool {
    match m {
        MessageModel::BasicId(b) => {
            &&& text_is(r.id_type, b.id_type.name())
            &&& text_is(r.ua_type, b.ua_type.name())
            &&& text_is(r.ua_id, b.ua_id)
            &&& no_location(r) && no_system(r) && no_operator_id(r) && no_self_id(r) && no_auth(r)
        },
        MessageModel::Location(l) => {
            &&& r.status == Some(l.status as i16)
            &&& r.direction_deg == Some(l.direction_deg)
            &&& r.speed_h_quarter_ms == Some(l.speed_horizontal_quarter_ms)
            &&& r.speed_v_half_ms == Some(l.speed_vertical_half_ms)
            &&& r.lat_e7 == Some(l.latitude_e7)
            &&& r.lon_e7 == Some(l.longitude_e7)
            &&& r.alt_press_half_m == Some(l.altitude_pressure_half_m)
            &&& r.alt_geo_half_m == Some(l.altitude_geodetic_half_m)
            &&& r.height_agl_half_m == Some(l.height_above_takeoff_half_m)
            &&& r.loc_ts_tenths == Some(l.timestamp_tenths)
            &&& no_basic_id(r) && no_system(r) && no_operator_id(r) && no_self_id(r) && no_auth(r)
        },
        MessageModel::System(s) => {
            &&& r.op_lat_e7 == Some(s.operator_latitude_e7)
            &&& r.op_lon_e7 == Some(s.operator_longitude_e7)
            &&& r.area_count == Some(s.area_count as i16)
            &&& r.area_radius == Some(s.area_radius as i16)
            &&& r.area_ceil_half_m == Some(s.area_ceiling_half_m)
            &&& r.area_floor_half_m == Some(s.area_floor_half_m)
            &&& r.class_type == Some(s.classification_type as i16)
            &&& r.op_alt_geo_half_m == Some(s.operator_altitude_geo_half_m)
            &&& no_basic_id(r) && no_location(r) && no_operator_id(r) && no_self_id(r) && no_auth(r)
        },
        MessageModel::OperatorId(o) => {
            &&& r.op_id_type == Some(o.operator_id_type as i16)
            &&& text_is(r.op_id, o.operator_id)
            &&& no_basic_id(r) && no_location(r) && no_system(r) && no_self_id(r) && no_auth(r)
        },
        MessageModel::SelfId(s) => {
            &&& r.desc_type == Some(s.description_type as i16)
            &&& text_is(r.description, s.description)
            &&& no_basic_id(r) && no_location(r) && no_system(r) && no_operator_id(r) && no_auth(r)
        },
        MessageModel::Auth(a) => {
            &&& r.auth_type == Some(a.auth_type as i16)
            &&& r.auth_page == Some(a.page_number as i16)
            &&& r.auth_pages == Some(a.page_count as i16)
            &&& r.auth_len == Some(a.length as i16)
            &&& r.auth_ts == Some(a.timestamp as i32)
            &&& (r.auth_data matches Some(d) && d@ == a.data)
            &&& no_basic_id(r) && no_location(r) && no_system(r) && no_operator_id(r) && no_self_id(r)
        },
        MessageModel::Unknown { .. } => {
            no_basic_id(r) && no_location(r) && no_system(r) && no_operator_id(r) && no_self_id(r)
                && no_auth(r)
        },
    }
}

/// The row of a Location message logs each quantity from its own bytes of the
/// message: latitude from bytes 5-8, longitude from bytes 9-12, pressure
/// altitude from bytes 13-14, geodetic altitude from bytes 15-16, height above
/// take-off from bytes 17-18 and the timestamp from bytes 21-22, and no column
/// of another message type.
pub proof fn location_row_from_bytes(r: SightingRow, d: Seq<u8>)
    requires
        d.len() == 25,
        d[0] / 16 == 1,
        message_columns(r, message_of(d)),
    ensures
        r.lat_e7 == Some((d[5] + 256 * d[6] + 65536 * d[7] + 16777216 * d[8]) as i32),
        r.lon_e7 == Some((d[9] + 256 * d[10] + 65536 * d[11] + 16777216 * d[12]) as i32),
        r.alt_press_half_m == Some((d[13] + 256 * d[14] - 2000) as i32),
        r.alt_geo_half_m == Some((d[15] + 256 * d[16] - 2000) as i32),
        r.height_agl_half_m == Some((d[17] + 256 * d[18] - 2000) as i32),
        r.loc_ts_tenths == Some((d[21] + 256 * d[22]) as u16),
        r.speed_v_half_ms == Some(d[4] as i8),
        r.status == Some((d[1] / 16) as i16),
        no_basic_id(r) && no_system(r) && no_operator_id(r) && no_self_id(r) && no_auth(r),
{
    location_fields_from_bytes(d);
}

/// The row of a System message logs the operator position from bytes 2-9, the
/// area ceiling and floor from bytes 13-16 and the operator altitude from bytes
/// 21-22, and no column of another message type.
pub proof fn system_row_from_bytes(r: SightingRow, d: Seq<u8>)
    requires
        d.len() == 25,
        d[0] / 16 == 4,
        message_columns(r, message_of(d)),
    ensures
        r.op_lat_e7 == Some((d[2] + 256 * d[3] + 65536 * d[4] + 16777216 * d[5]) as i32),
        r.op_lon_e7 == Some((d[6] + 256 * d[7] + 65536 * d[8] + 16777216 * d[9]) as i32),
        r.area_ceil_half_m == Some((d[13] + 256 * d[14] - 2000) as i32),
        r.area_floor_half_m == Some((d[15] + 256 * d[16] - 2000) as i32),
        r.op_alt_geo_half_m == Some((d[21] + 256 * d[22] - 2000) as i32),
        r.class_type == Some((d[1] / 16) as i16),
        no_basic_id(r) && no_location(r) && no_operator_id(r) && no_self_id(r) && no_auth(r),
{
    system_fields_from_bytes(d);
}

fn copy_bytes(v: &Vec<u8>) -> (c: Vec<u8>)
    ensures
        c@ == v@,
{
    vstd::slice::slice_to_vec(v.as_slice())
}

/// Build the database row for one decoded message.
pub fn build_row(
    transport: &'static str,
    mac: &[u8; 6],
    rssi: i8,
    counter: u8,
    msg: &DroneIdMessage,
) -> (row: SightingRow)
    ensures
        row.transport == transport,
        row.mac@ == mac_text(mac@),
        row.rssi == rssi,
        row.counter == counter,
        row.msg_type@ == msg@.msg_type().name(),
        message_columns(row, msg@),
{
    let mut row = SightingRow {
        transport,
        mac: format_mac(mac),
        rssi,
        counter,
        msg_type: msg.msg_type().to_string(),
        id_type: None,
        ua_type: None,
        ua_id: None,
        status: None,
        direction_deg: None,
        speed_h_quarter_ms: None,
        speed_v_half_ms: None,
        lat_e7: None,
        lon_e7: None,
        alt_press_half_m: None,
        alt_geo_half_m: None,
        height_agl_half_m: None,
        loc_ts_tenths: None,
        op_lat_e7: None,
        op_lon_e7: None,
        area_count: None,
        area_radius: None,
        area_ceil_half_m: None,
        area_floor_half_m: None,
        class_type: None,
        op_alt_geo_half_m: None,
        op_id_type: None,
        op_id: None,
        desc_type: None,
        description: None,
        auth_type: None,
        auth_page: None,
        auth_pages: None,
        auth_len: None,
        auth_ts: None,
        auth_data: None,
    };
    match msg {
        DroneIdMessage::BasicId(b) => {
            row.id_type = Some(b.id_type.to_string());
            row.ua_type = Some(b.ua_type.to_string());
            row.ua_id = Some(b.ua_id.clone());
        },
        DroneIdMessage::Location(l) => {
            row.status = Some(l.status as i16);
            row.direction_deg = Some(l.direction_deg);
            row.speed_h_quarter_ms = Some(l.speed_horizontal_quarter_ms);
            row.speed_v_half_ms = Some(l.speed_vertical_half_ms);
            row.lat_e7 = Some(l.latitude_e7);
            row.lon_e7 = Some(l.longitude_e7);
            row.alt_press_half_m = Some(l.altitude_pressure_half_m);
            row.alt_geo_half_m = Some(l.altitude_geodetic_half_m);
            row.height_agl_half_m = Some(l.height_above_takeoff_half_m);
            row.loc_ts_tenths = Some(l.timestamp_tenths);
        },
        DroneIdMessage::System(s) => {
            row.op_lat_e7 = Some(s.operator_latitude_e7);
            row.op_lon_e7 = Some(s.operator_longitude_e7);
            row.area_count = Some(#[verifier::truncate] (s.area_count as i16));
            row.area_radius = Some(#[verifier::truncate] (s.area_radius as i16));
            row.area_ceil_half_m = Some(s.area_ceiling_half_m);
            row.area_floor_half_m = Some(s.area_floor_half_m);
            row.class_type = Some(s.classification_type as i16);
            row.op_alt_geo_half_m = Some(s.operator_altitude_geo_half_m);
        },
        DroneIdMessage::OperatorId(o) => {
            row.op_id_type = Some(o.operator_id_type as i16);
            row.op_id = Some(o.operator_id.clone());
        },
        DroneIdMessage::SelfId(s) => {
            row.desc_type = Some(s.description_type as i16);
            row.description = Some(s.description.clone());
        },
        DroneIdMessage::Auth(a) => {
            row.auth_type = Some(a.auth_type as i16);
            row.auth_page = Some(a.page_number as i16);
            row.auth_pages = Some(a.page_count as i16);
            row.auth_len = Some(a.length as i16);
            row.auth_ts = Some(#[verifier::truncate] (a.timestamp as i32));
            row.auth_data = Some(copy_bytes(&a.data));
        },
        DroneIdMessage::Unknown { .. } => {},
    }
    row
}

} // verus!
