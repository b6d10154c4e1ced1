//! The packets exchanged with a LoRa node over its serial link, and the
//! byte layout of each payload.
//!
//! Floating-point quantities (frequency, bandwidth, RSSI, SNR) are carried as
//! the IEEE-754 bit pattern of the `f32` that the node uses: that is exactly
//! what travels on the wire.
use crate::wire::{
    i32_le, le_i32_at, le_u16_at, le_u32_at, lemma_i32_le_roundtrip, lemma_u16_le_roundtrip,
    lemma_u32_le_roundtrip, push_u16_le, push_u32_le, read_u16_le, read_u32_le, u16_from_le,
    u16_le, u32_from_le, u32_le,
};
use vstd::prelude::*;

verus! {

/// Packet type, the byte that follows the opening frame delimiter.
#[derive(Debug, Clone, Copy, PartialEq, Eq, Structural)]
pub enum PacketType {
    CmdQueryInfo,
    CmdSetLoraParam,
    TxData,
    RxData,
    RetNodeInfo,
}

/// The byte that stands for a packet type on the wire.
pub open spec fn packet_type_byte(t: PacketType) -> u8 {
    match t {
        PacketType::CmdQueryInfo => 0x01,
        PacketType::CmdSetLoraParam => 0x02,
        PacketType::TxData => 0x03,
        PacketType::RxData => 0x04,
        PacketType::RetNodeInfo => 0x05,
    }
}

/// The packet type a byte stands for, if any.
pub open spec fn packet_type_from_byte(b: u8) -> Option<PacketType> {
    if b == 0x01 {
        Some(PacketType::CmdQueryInfo)
    } else if b == 0x02 {
        Some(PacketType::CmdSetLoraParam)
    } else if b == 0x03 {
        Some(PacketType::TxData)
    } else if b == 0x04 {
        Some(PacketType::RxData)
    } else if b == 0x05 {
        Some(PacketType::RetNodeInfo)
    } else {
        None
    }
}

impl PacketType {
    /// The packet type a byte stands for: `Err(())` for any byte outside 1 to 5.
    pub fn try_from(value: u8) -> (r: Result<PacketType, ()>)
        ensures
            r matches Ok(t) ==> packet_type_from_byte(value) == Some(t),
            r is Err <==> packet_type_from_byte(value) is None,
    {
        match value {
            0x01 => Ok(PacketType::CmdQueryInfo),
            0x02 => Ok(PacketType::CmdSetLoraParam),
            0x03 => Ok(PacketType::TxData),
            0x04 => Ok(PacketType::RxData),
            0x05 => Ok(PacketType::RetNodeInfo),
            _ => Err(()),
        }
    }

    /// The byte that stands for this packet type.
    pub fn to_byte(self) -> (b: u8)
        ensures
            b == packet_type_byte(self),
    {
        match self {
            PacketType::CmdQueryInfo => 0x01,
            PacketType::CmdSetLoraParam => 0x02,
            PacketType::TxData => 0x03,
            PacketType::RxData => 0x04,
            PacketType::RetNodeInfo => 0x05,
        }
    }
}

/// Working mode of a node.
#[derive(Debug, Clone, Copy, PartialEq, Eq, Structural)]
pub enum NodeWorkingMode {
    Tx,
    Rx,
    NotSet,
}

/// The byte that stands for a working mode on the wire.
pub open spec fn mode_byte(m: NodeWorkingMode) -> u8 {
    match m {
        NodeWorkingMode::Tx => 0x01,
        NodeWorkingMode::Rx => 0x02,
        NodeWorkingMode::NotSet => 0xFF,
    }
}

/// The working mode a byte stands for, if any.
pub open spec fn mode_from_byte(b: u8) -> Option<NodeWorkingMode> {
    if b == 0x01 {
        Some(NodeWorkingMode::Tx)
    } else if b == 0x02 {
        Some(NodeWorkingMode::Rx)
    } else if b == 0xFF {
        Some(NodeWorkingMode::NotSet)
    } else {
        None
    }
}

impl NodeWorkingMode {
    /// The working mode a byte stands for: `Err(())` for any byte but 0x01, 0x02 and 0xFF.
    pub fn try_from(value: u8) -> (r: Result<NodeWorkingMode, ()>)
        ensures
            r matches Ok(m) ==> mode_from_byte(value) == Some(m),
            r is Err <==> mode_from_byte(value) is None,
    {
        match value {
            0x01 => Ok(NodeWorkingMode::Tx),
            0x02 => Ok(NodeWorkingMode::Rx),
            0xFF => Ok(NodeWorkingMode::NotSet),
            _ => Err(()),
        }
    }

    /// The byte that stands for this working mode.
    pub fn to_byte(self) -> (b: u8)
        ensures
            b == mode_byte(self),
    {
        match self {
            NodeWorkingMode::Tx => 0x01,
            NodeWorkingMode::Rx => 0x02,
            NodeWorkingMode::NotSet => 0xFF,
        }
    }
}

/// LoRa radio parameters, 14 bytes on the wire.
#[derive(Debug, Clone, Copy, PartialEq, Eq, Structural)]
pub struct LoraParam {
    /// Bit pattern of the `f32` frequency in MHz.
    pub frequency_bits: u32,
    /// Bit pattern of the `f32` bandwidth in kHz.
    pub bandwidth_bits: u32,
    pub spreading_factor: u8,
    pub coding_rate: u8,
    pub sync_word: u8,
    pub tx_power: i8,
    pub preamble_length: u16,
}

/// Bit pattern of 434.0f32.
pub const DEFAULT_FREQUENCY_BITS: u32 = 0x43D9_0000;

/// Bit pattern of 125.0f32.
pub const DEFAULT_BANDWIDTH_BITS: u32 = 0x42FA_0000;

impl LoraParam {
    /// 434 MHz, 125 kHz, SF 9, CR 4/5, sync word 0x12, 10 dBm, preamble 8.
    pub fn default() -> (p: LoraParam)
        ensures
            p == (LoraParam {
                frequency_bits: DEFAULT_FREQUENCY_BITS,
                bandwidth_bits: DEFAULT_BANDWIDTH_BITS,
                spreading_factor: 9,
                coding_rate: 5,
                sync_word: 0x12,
                tx_power: 10,
                preamble_length: 8,
            }),
    {
        LoraParam {
            frequency_bits: DEFAULT_FREQUENCY_BITS,
            bandwidth_bits: DEFAULT_BANDWIDTH_BITS,
            spreading_factor: 9,
            coding_rate: 5,
            sync_word: 0x12,
            tx_power: 10,
            preamble_length: 8,
        }
    }
}

/// Size of [`LoraParam`] on the wire.
pub const LORA_PARAM_SIZE: usize = 14;

/// Size of [`SetLoraParamPayload`] on the wire.
pub const SET_LORA_PARAM_PAYLOAD_SIZE: usize = 15;

/// Size of [`CmdQueryInfoPayload`] on the wire.
pub const QUERY_INFO_PAYLOAD_SIZE: usize = 21;

/// Size of the fixed header of a TX data payload (its `len` field).
pub const TX_HEADER_SIZE: usize = 4;

/// Size of the fixed header of an RX data payload (rssi, snr, len, crc_status).
pub const RX_HEADER_SIZE: usize = 16;

/// The 14 bytes of a parameter block, packed, fields in declaration order.
pub open spec fn lora_param_bytes(p: LoraParam) -> Seq<u8> {
    u32_le(p.frequency_bits) + u32_le(p.bandwidth_bits) + seq![
        p.spreading_factor,
        p.coding_rate,
        p.sync_word,
        p.tx_power as u8,
    ] + u16_le(p.preamble_length)
}

/// The parameter block stored at position `i` of `s`.
pub open spec fn lora_param_at(s: Seq<u8>, i: int) -> LoraParam {
    LoraParam {
        frequency_bits: le_u32_at(s, i),
        bandwidth_bits: le_u32_at(s, i + 4),
        spreading_factor: s[i + 8],
        coding_rate: s[i + 9],
        sync_word: s[i + 10],
        tx_power: s[i + 11] as i8,
        preamble_length: le_u16_at(s, i + 12),
    }
}

/// Payload of a set-parameters command, 15 bytes on the wire.
#[derive(Debug, Clone, Copy, PartialEq, Eq, Structural)]
pub struct SetLoraParamPayload {
    pub node_working_mode: NodeWorkingMode,
    pub params: LoraParam,
}

/// Payload of a node-information reply, 21 bytes on the wire.
#[derive(Debug, Clone, Copy)]
pub struct CmdQueryInfoPayload {
    pub node_id: [u8; 6],
    pub node_working_mode: NodeWorkingMode,
    pub node_info: LoraParam,
}

/// Data handed to a TX node for sending over the air.
#[derive(Debug, Clone)]
pub struct TxDataPacket {
    pub len: i32,
    pub data: Vec<u8>,
}

/// Data a RX node received over the air.
#[derive(Debug, Clone)]
pub struct RxDataPacket {
    /// Bit pattern of the `f32` RSSI in dBm.
    pub rssi_bits: u32,
    /// Bit pattern of the `f32` SNR in dB.
    pub snr_bits: u32,
    pub len: i32,
    /// 1 when the node's CRC check passed, 0 when it failed.
    pub crc_status: i32,
    pub data: Vec<u8>,
}

/// A decoded packet.
#[derive(Debug, Clone)]
pub enum DecodedPacket {
    CmdQueryInfo,
    CmdSetLoraParam(SetLoraParamPayload),
    TxData(TxDataPacket),
    RxData(RxDataPacket),
    RetNodeInfo(CmdQueryInfoPayload),
}

/// The contents of a [`TxDataPacket`].
pub struct TxDataView {
    pub len: i32,
    pub data: Seq<u8>,
}

/// The contents of a [`RxDataPacket`].
pub struct RxDataView {
    pub rssi_bits: u32,
    pub snr_bits: u32,
    pub len: i32,
    pub crc_status: i32,
    pub data: Seq<u8>,
}

/// The contents of a [`DecodedPacket`].
pub enum PacketView {
    CmdQueryInfo,
    CmdSetLoraParam(SetLoraParamPayload),
    TxData(TxDataView),
    RxData(RxDataView),
    RetNodeInfo(CmdQueryInfoPayload),
}

impl View for TxDataPacket {
    type V = TxDataView;

    open spec fn view(&self) -> TxDataView {
        TxDataView { len: self.len, data: self.data@ }
    }
}

impl View for RxDataPacket {
    type V = RxDataView;

    open spec fn view(&self) -> RxDataView {
        RxDataView {
            rssi_bits: self.rssi_bits,
            snr_bits: self.snr_bits,
            len: self.len,
            crc_status: self.crc_status,
            data: self.data@,
        }
    }
}

impl View for DecodedPacket {
    type V = PacketView;

    open spec fn view(&self) -> PacketView {
        match self {
            DecodedPacket::CmdQueryInfo => PacketView::CmdQueryInfo,
            DecodedPacket::CmdSetLoraParam(p) => PacketView::CmdSetLoraParam(*p),
            DecodedPacket::TxData(p) => PacketView::TxData(p@),
            DecodedPacket::RxData(p) => PacketView::RxData(p@),
            DecodedPacket::RetNodeInfo(p) => PacketView::RetNodeInfo(*p),
        }
    }
}

/// The type of a packet.
pub open spec fn view_packet_type(p: PacketView) -> PacketType {
    match p {
        PacketView::CmdQueryInfo => PacketType::CmdQueryInfo,
        PacketView::CmdSetLoraParam(_) => PacketType::CmdSetLoraParam,
        PacketView::TxData(_) => PacketType::TxData,
        PacketView::RxData(_) => PacketType::RxData,
        PacketView::RetNodeInfo(_) => PacketType::RetNodeInfo,
    }
}

impl DecodedPacket {
    /// The type of this packet.
    pub fn packet_type(&self) -> (t: PacketType)
        ensures
            t == view_packet_type(self@),
    {
        match self {
            DecodedPacket::CmdQueryInfo => PacketType::CmdQueryInfo,
            DecodedPacket::CmdSetLoraParam(_) => PacketType::CmdSetLoraParam,
            DecodedPacket::TxData(_) => PacketType::TxData,
            DecodedPacket::RxData(_) => PacketType::RxData,
            DecodedPacket::RetNodeInfo(_) => PacketType::RetNodeInfo,
        }
    }
}

/// The payload bytes of a packet: its fields, packed, little-endian, in declaration order.
pub open spec fn payload_bytes(p: PacketView) -> Seq<u8> {
    match p {
        PacketView::CmdQueryInfo => seq![],
        PacketView::CmdSetLoraParam(s) => seq![mode_byte(s.node_working_mode)] + lora_param_bytes(
            s.params,
        ),
        PacketView::TxData(t) => i32_le(t.len) + t.data,
        PacketView::RxData(r) => u32_le(r.rssi_bits) + u32_le(r.snr_bits) + i32_le(r.len) + i32_le(
            r.crc_status,
        ) + r.data,
        PacketView::RetNodeInfo(q) => q.node_id@ + seq![mode_byte(q.node_working_mode)]
            + lora_param_bytes(q.node_info),
    }
}

/// The packet that a payload of the given type stands for, if it is well formed.
///
/// A query command ignores its payload; a TX or RX data payload is its fixed
/// header followed by any number of data bytes; the other two have a fixed size
/// and a valid working-mode byte.
pub open spec fn parse_payload(t: PacketType, s: Seq<u8>) -> Option<PacketView> {
    match t {
        PacketType::CmdQueryInfo => Some(PacketView::CmdQueryInfo),
        PacketType::CmdSetLoraParam => if s.len() == SET_LORA_PARAM_PAYLOAD_SIZE {
            match mode_from_byte(s[0]) {
                Some(m) => Some(
                    PacketView::CmdSetLoraParam(
                        SetLoraParamPayload { node_working_mode: m, params: lora_param_at(s, 1) },
                    ),
                ),
                None => None,
            }
        } else {
            None
        },
        PacketType::TxData => if s.len() >= TX_HEADER_SIZE {
            Some(PacketView::TxData(TxDataView { len: le_i32_at(s, 0), data: s.skip(4) }))
        } else {
            None
        },
        PacketType::RxData => if s.len() >= RX_HEADER_SIZE {
            Some(
                PacketView::RxData(
                    RxDataView {
                        rssi_bits: le_u32_at(s, 0),
                        snr_bits: le_u32_at(s, 4),
                        len: le_i32_at(s, 8),
                        crc_status: le_i32_at(s, 12),
                        data: s.skip(16),
                    },
                ),
            )
        } else {
            None
        },
        PacketType::RetNodeInfo => if s.len() == QUERY_INFO_PAYLOAD_SIZE {
            match mode_from_byte(s[6]) {
                Some(m) => Some(
                    PacketView::RetNodeInfo(
                        CmdQueryInfoPayload {
                            node_id: [s[0], s[1], s[2], s[3], s[4], s[5]],
                            node_working_mode: m,
                            node_info: lora_param_at(s, 7),
                        },
                    ),
                ),
                None => None,
            }
        } else {
            None
        },
    }
}

/// Appends the 14 bytes of a parameter block to `out`.
pub fn push_lora_param(out: &mut Vec<u8>, p: &LoraParam)
    ensures
        final(out)@ == old(out)@ + lora_param_bytes(*p),
{
    push_u32_le(out, p.frequency_bits);
    push_u32_le(out, p.bandwidth_bits);
    out.push(p.spreading_factor);
    out.push(p.coding_rate);
    out.push(p.sync_word);
    out.push(p.tx_power as u8);
    push_u16_le(out, p.preamble_length);
    assert(final(out)@ =~= old(out)@ + lora_param_bytes(*p));
}

/// The parameter block stored at position `i` of `s`.
pub fn read_lora_param(s: &[u8], i: usize) -> (p: LoraParam)
    requires
        i + LORA_PARAM_SIZE <= s.len(),
    ensures
        p == lora_param_at(s@, i as int),
{
    LoraParam {
        frequency_bits: read_u32_le(s, i),
        bandwidth_bits: read_u32_le(s, i + 4),
        spreading_factor: s[i + 8],
        coding_rate: s[i + 9],
        sync_word: s[i + 10],
        tx_power: s[i + 11] as i8,
        preamble_length: read_u16_le(s, i + 12),
    }
}

/// Reading back the bytes of a parameter block gives the block.
pub proof fn lemma_lora_param_roundtrip(p: LoraParam, prefix: Seq<u8>, suffix: Seq<u8>)
    ensures
        lora_param_bytes(p).len() == LORA_PARAM_SIZE,
        lora_param_at(prefix + lora_param_bytes(p) + suffix, prefix.len() as int) == p,
{
    lemma_u32_le_roundtrip(p.frequency_bits);
    lemma_u32_le_roundtrip(p.bandwidth_bits);
    lemma_u16_le_roundtrip(p.preamble_length);
    let b = lora_param_bytes(p);
    let s = prefix + b + suffix;
    let i = prefix.len() as int;
    assert forall|k: int| 0 <= k < 14 implies s[i + k] == b[k] by {}
    assert(le_u32_at(s, i) == le_u32_at(u32_le(p.frequency_bits), 0));
    assert(le_u32_at(s, i + 4) == le_u32_at(u32_le(p.bandwidth_bits), 0));
    assert(le_u16_at(s, i + 12) == le_u16_at(u16_le(p.preamble_length), 0));
    let tp = p.tx_power;
    assert(((tp as u8) as i8) == tp) by (bit_vector);
}

/// The payload of a set-parameters command is, for every working mode, the
/// mode byte followed by the parameter block packed in declaration order:
/// frequency (4 bytes, little-endian), bandwidth (4), spreading factor, coding
/// rate, sync word, power, preamble length (2, little-endian).
pub proof fn lemma_set_param_payload_layout(x: SetLoraParamPayload)
    ensures
        payload_bytes(PacketView::CmdSetLoraParam(x)) == seq![mode_byte(x.node_working_mode)]
            + u32_le(x.params.frequency_bits) + u32_le(x.params.bandwidth_bits) + seq![
            x.params.spreading_factor,
            x.params.coding_rate,
            x.params.sync_word,
            x.params.tx_power as u8,
        ] + u16_le(x.params.preamble_length),
        payload_bytes(PacketView::CmdSetLoraParam(x)).len() == 15,
{
    assert(payload_bytes(PacketView::CmdSetLoraParam(x)) =~= seq![mode_byte(x.node_working_mode)]
        + u32_le(x.params.frequency_bits) + u32_le(x.params.bandwidth_bits) + seq![
        x.params.spreading_factor,
        x.params.coding_rate,
        x.params.sync_word,
        x.params.tx_power as u8,
    ] + u16_le(x.params.preamble_length));
}

/// A 15-byte set-parameters payload is read in the packed layout: mode at
/// byte 0, frequency at bytes 1-4, bandwidth at 5-8, spreading factor at 9,
/// coding rate at 10, sync word at 11, power at 12, preamble length at 13-14
/// (integers little-endian); an unknown mode byte gives no packet.
pub proof fn lemma_set_param_payload_read(s: Seq<u8>)
    requires
        s.len() == 15,
    ensures
        mode_from_byte(s[0]) is None ==> parse_payload(PacketType::CmdSetLoraParam, s) is None,
        mode_from_byte(s[0]) is Some ==> parse_payload(PacketType::CmdSetLoraParam, s) == Some(
            PacketView::CmdSetLoraParam(
                SetLoraParamPayload {
                    node_working_mode: mode_from_byte(s[0]).unwrap(),
                    params: LoraParam {
                        frequency_bits: u32_from_le(s[1], s[2], s[3], s[4]),
                        bandwidth_bits: u32_from_le(s[5], s[6], s[7], s[8]),
                        spreading_factor: s[9],
                        coding_rate: s[10],
                        sync_word: s[11],
                        tx_power: s[12] as i8,
                        preamble_length: u16_from_le(s[13], s[14]),
                    },
                },
            ),
        ),
{
}

/// The payload of a node-information reply is the six id bytes, the mode
/// byte, then the parameter block packed in declaration order: frequency (4
/// bytes, little-endian), bandwidth (4), spreading factor, coding rate, sync
/// word, power, preamble length (2, little-endian).
pub proof fn lemma_node_info_payload_layout(q: CmdQueryInfoPayload)
    ensures
        payload_bytes(PacketView::RetNodeInfo(q)) == q.node_id@ + seq![
            mode_byte(q.node_working_mode),
        ] + u32_le(q.node_info.frequency_bits) + u32_le(q.node_info.bandwidth_bits) + seq![
            q.node_info.spreading_factor,
            q.node_info.coding_rate,
            q.node_info.sync_word,
            q.node_info.tx_power as u8,
        ] + u16_le(q.node_info.preamble_length),
        payload_bytes(PacketView::RetNodeInfo(q)).len() == 21,
{
    assert(q.node_id@.len() == 6);
    assert(payload_bytes(PacketView::RetNodeInfo(q)) =~= q.node_id@ + seq![
        mode_byte(q.node_working_mode),
    ] + u32_le(q.node_info.frequency_bits) + u32_le(q.node_info.bandwidth_bits) + seq![
        q.node_info.spreading_factor,
        q.node_info.coding_rate,
        q.node_info.sync_word,
        q.node_info.tx_power as u8,
    ] + u16_le(q.node_info.preamble_length));
}

/// A 21-byte node-information payload is read in the packed layout: node id
/// at bytes 0-5, mode at 6, frequency at 7-10, bandwidth at 11-14, spreading
/// factor at 15, coding rate at 16, sync word at 17, power at 18, preamble
/// length at 19-20 (integers little-endian); an unknown mode byte gives no
/// packet.
pub proof fn lemma_node_info_payload_read(s: Seq<u8>)
    requires
        s.len() == 21,
    ensures
        mode_from_byte(s[6]) is None ==> parse_payload(PacketType::RetNodeInfo, s) is None,
        mode_from_byte(s[6]) is Some ==> parse_payload(PacketType::RetNodeInfo, s) == Some(
            PacketView::RetNodeInfo(
                CmdQueryInfoPayload {
                    node_id: [s[0], s[1], s[2], s[3], s[4], s[5]],
                    node_working_mode: mode_from_byte(s[6]).unwrap(),
                    node_info: LoraParam {
                        frequency_bits: u32_from_le(s[7], s[8], s[9], s[10]),
                        bandwidth_bits: u32_from_le(s[11], s[12], s[13], s[14]),
                        spreading_factor: s[15],
                        coding_rate: s[16],
                        sync_word: s[17],
                        tx_power: s[18] as i8,
                        preamble_length: u16_from_le(s[19], s[20]),
                    },
                },
            ),
        ),
{
}

/// A parameter block takes 14 bytes, a set-parameters payload 15 and a
/// node-information payload 21.
pub proof fn lemma_fixed_payload_sizes(p: LoraParam, s: SetLoraParamPayload, q: CmdQueryInfoPayload)
    ensures
        lora_param_bytes(p).len() == LORA_PARAM_SIZE,
        payload_bytes(PacketView::CmdSetLoraParam(s)).len() == SET_LORA_PARAM_PAYLOAD_SIZE,
        payload_bytes(PacketView::RetNodeInfo(q)).len() == QUERY_INFO_PAYLOAD_SIZE,
{
    assert(q.node_id@.len() == 6);
}

/// Reading a payload back gives the packet it was written from, for every packet.
pub proof fn lemma_payload_roundtrip(p: PacketView)
    ensures
        parse_payload(view_packet_type(p), payload_bytes(p)) == Some(p),
{
    let s = payload_bytes(p);
    match p {
        PacketView::CmdQueryInfo => {},
        PacketView::CmdSetLoraParam(x) => {
            lemma_lora_param_roundtrip(x.params, seq![mode_byte(x.node_working_mode)], seq![]);
            assert(s =~= seq![mode_byte(x.node_working_mode)] + lora_param_bytes(x.params) + seq![]);
        },
        PacketView::TxData(t) => {
            lemma_i32_le_roundtrip(t.len);
            assert(s.skip(4) =~= t.data);
            assert(le_i32_at(s, 0) == le_i32_at(i32_le(t.len), 0));
            assert(parse_payload(view_packet_type(p), s) == Some(
                PacketView::TxData(TxDataView { len: t.len, data: t.data }),
            ));
        },
        PacketView::RxData(r) => {
            lemma_u32_le_roundtrip(r.rssi_bits);
            lemma_u32_le_roundtrip(r.snr_bits);
            lemma_i32_le_roundtrip(r.len);
            lemma_i32_le_roundtrip(r.crc_status);
            assert(s.skip(16) =~= r.data);
            assert(le_u32_at(s, 0) == le_u32_at(u32_le(r.rssi_bits), 0));
            assert(le_u32_at(s, 4) == le_u32_at(u32_le(r.snr_bits), 0));
            assert(le_i32_at(s, 8) == le_i32_at(i32_le(r.len), 0));
            assert(le_i32_at(s, 12) == le_i32_at(i32_le(r.crc_status), 0));
            assert(parse_payload(view_packet_type(p), s) == Some(
                PacketView::RxData(
                    RxDataView {
                        rssi_bits: r.rssi_bits,
                        snr_bits: r.snr_bits,
                        len: r.len,
                        crc_status: r.crc_status,
                        data: r.data,
                    },
                ),
            ));
        },
        PacketView::RetNodeInfo(q) => {
            let prefix = q.node_id@ + seq![mode_byte(q.node_working_mode)];
            lemma_lora_param_roundtrip(q.node_info, prefix, seq![]);
            assert(s =~= prefix + lora_param_bytes(q.node_info) + seq![]);
            let id = [s[0], s[1], s[2], s[3], s[4], s[5]];
            assert(id@ =~= q.node_id@);
            assert(id == q.node_id);
        },
    }
}

} // verus!
