//! HCI command packets for LE scanning.

use vstd::prelude::*;

verus! {

/// Opcode group of the LE controller commands.
pub const OGF_LE_CTL: u16 = 0x08;

/// LE Set Scan Parameters.
pub const OCF_LE_SET_SCAN_PARAMS: u16 = 0x000B;

/// LE Set Scan Enable.
pub const OCF_LE_SET_SCAN_ENABLE: u16 = 0x000C;

/// The HCI packet type of a command.
pub const HCI_COMMAND_PKT: u8 = 0x01;

/// The 16-bit opcode: the group's low 6 bits above the command's low 10 bits.
pub open spec fn opcode(ogf: u16, ocf: u16) -> int {
    (ogf % 64) * 1024 + ocf % 1024
}

/// A command packet: packet type, opcode (little-endian), parameter length
/// (its low byte), then the parameters.
pub open spec fn command_bytes(ogf: u16, ocf: u16, params: Seq<u8>) -> Seq<u8> {
    seq![
        HCI_COMMAND_PKT,
        (opcode(ogf, ocf) % 256) as u8,
        (opcode(ogf, ocf) / 256) as u8,
        (params.len() % 256) as u8,
    ] + params
}

/// Build a raw HCI command packet.
pub fn command_packet(ogf: u16, ocf: u16, params: &[u8]) -> (buf: Vec<u8>)
    ensures
        buf@ == command_bytes(ogf, ocf, params@),
{
    let opcode: u16 = (ogf % 64) * 1024 + ocf % 1024;
    let plen: u8 = (params.len() % 256) as u8;
    let mut buf: Vec<u8> = Vec::new();
    buf.push(HCI_COMMAND_PKT);
    buf.push((opcode % 256) as u8);
    buf.push((opcode / 256) as u8);
    buf.push(plen);
    let mut i: usize = 0;
    while i < params.len()
        invariant
            i <= params@.len(),
            buf@ == command_bytes(ogf, ocf, params@).take(4 + i),
        decreases params@.len() - i,
    {
        buf.push(params[i]);
        i = i + 1;
        assert(buf@ =~= command_bytes(ogf, ocf, params@).take(4 + i));
    }
    assert(command_bytes(ogf, ocf, params@).take(4 + i) =~= command_bytes(ogf, ocf, params@));
    buf
}

/// The parameters of a passive LE scan with 100 ms interval and window
/// (0x00A0 units of 0.625 ms), public own address, accepting all advertisers.
pub open spec fn scan_parameters() -> Seq<u8> {
    seq![0x00u8, 0xA0, 0x00, 0xA0, 0x00, 0x00, 0x00]
}

/// The command that configures LE scan parameters: passive scan, 100ms interval/window.
pub fn le_set_scan_parameters_command() -> (buf: Vec<u8>)
    ensures
        buf@ == command_bytes(OGF_LE_CTL, OCF_LE_SET_SCAN_PARAMS, scan_parameters()),
{
    let params: [u8; 7] = [
        0x00,  // scan type: passive
        0xA0, 0x00,  // scan interval: 0x00A0 = 160 * 0.625ms = 100ms
        0xA0, 0x00,  // scan window: 0x00A0 = 100ms
        0x00,  // own address type: public
        0x00,  // filter policy: accept all
    ];
    assert(params@ =~= scan_parameters());
    command_packet(OGF_LE_CTL, OCF_LE_SET_SCAN_PARAMS, params.as_slice())
}

/// The parameters that enable or disable LE scanning, without duplicate filtering.
pub open spec fn scan_enable(enable: bool) -> Seq<u8> {
    seq![if enable { 0x01u8 } else { 0x00u8 }, 0x00u8]
}

/// The command that enables or disables LE scanning.
pub fn le_set_scan_enable_command(enable: bool) -> (buf: Vec<u8>)
    ensures
        buf@ == command_bytes(OGF_LE_CTL, OCF_LE_SET_SCAN_ENABLE, scan_enable(enable)),
{
    let params: [u8; 2] = [
        if enable { 0x01 } else { 0x00 },  // enable
        0x00,  // filter duplicates: disabled
    ];
    assert(params@ =~= scan_enable(enable));
    command_packet(OGF_LE_CTL, OCF_LE_SET_SCAN_ENABLE, params.as_slice())
}

/// A command packet starts with the command packet type, then the opcode
/// `ogf << 10 | ocf` in little-endian order and the parameter count, and ends
/// with the parameters as given.
pub proof fn command_layout(ogf: u16, ocf: u16, params: Seq<u8>)
    requires
        ogf < 64,
        ocf < 1024,
        params.len() < 256,
    ensures
        command_bytes(ogf, ocf, params).len() == params.len() + 4,
        command_bytes(ogf, ocf, params)[0] == 0x01,
        command_bytes(ogf, ocf, params)[1] + 256 * command_bytes(ogf, ocf, params)[2] == ogf * 1024 + ocf,
        command_bytes(ogf, ocf, params)[3] == params.len(),
        command_bytes(ogf, ocf, params).skip(4) == params,
{
    let c = command_bytes(ogf, ocf, params);
    assert(c.skip(4) =~= params);
}

/// The scanning commands, byte for byte: LE Set Scan Parameters (opcode
/// 0x200B) with a passive scan at a 100 ms interval and window, and LE Set
/// Scan Enable (opcode 0x200C) switching scanning on or off without duplicate
/// filtering.
pub proof fn scan_commands_bytes(enable: bool)
    ensures
        command_bytes(OGF_LE_CTL, OCF_LE_SET_SCAN_PARAMS, scan_parameters()) == seq![
            0x01u8, 0x0B, 0x20, 0x07, 0x00, 0xA0, 0x00, 0xA0, 0x00, 0x00, 0x00,
        ],
        command_bytes(OGF_LE_CTL, OCF_LE_SET_SCAN_ENABLE, scan_enable(enable)) == seq![
            0x01u8, 0x0C, 0x20, 0x02, if enable { 0x01u8 } else { 0x00u8 }, 0x00,
        ],
{
    assert(command_bytes(OGF_LE_CTL, OCF_LE_SET_SCAN_PARAMS, scan_parameters()) =~= seq![
        0x01u8, 0x0B, 0x20, 0x07, 0x00, 0xA0, 0x00, 0xA0, 0x00, 0x00, 0x00,
    ]);
    assert(command_bytes(OGF_LE_CTL, OCF_LE_SET_SCAN_ENABLE, scan_enable(enable)) =~= seq![
        0x01u8, 0x0C, 0x20, 0x02, if enable { 0x01u8 } else { 0x00u8 }, 0x00,
    ]);
}

} // verus!
