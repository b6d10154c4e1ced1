//! Framing of node packets on the serial link.
//!
//! A frame is `0x7E, type, length (u32, little-endian), payload, 0x7E`.
//! The decoder is a state machine fed byte by byte; its behaviour is stated by
//! [`step`] over the abstract state [`DecoderModel`], and [`run`] folds it over
//! a byte sequence.
use crate::node_packets::{
    mode_byte, packet_type_byte, packet_type_from_byte, parse_payload, payload_bytes,
    push_lora_param, read_lora_param, view_packet_type, CmdQueryInfoPayload, DecodedPacket,
    LoraParam, NodeWorkingMode, PacketType, PacketView, RxDataPacket, SetLoraParamPayload,
    TxDataPacket, TxDataView, QUERY_INFO_PAYLOAD_SIZE, RX_HEADER_SIZE,
    SET_LORA_PARAM_PAYLOAD_SIZE, TX_HEADER_SIZE,
};
use crate::wire::{le_u32_at, push_bytes, push_i32_le, push_u32_le, read_i32_le, read_u32_le, u32_le};
use vstd::prelude::*;
use vstd::slice::slice_to_vec;

verus! {

/// Opening and closing byte of every frame.
pub const FRAME_DELIMITER: u8 = 0x7E;

/// Largest payload length the decoder accepts.
pub const MAX_PACKET_SIZE: usize = 65536;

/// The abstract state of a decoder.
pub enum DecoderModel {
    /// Waiting for an opening delimiter.
    WaitStart,
    /// Waiting for the packet type byte.
    ReadType,
    /// Collecting the four length bytes.
    ReadLength { ptype: PacketType, len_bytes: Seq<u8> },
    /// Collecting `length` payload bytes.
    ReadData { ptype: PacketType, length: nat, payload: Seq<u8> },
    /// Payload complete, waiting for the closing delimiter.
    WaitEnd { ptype: PacketType, payload: Seq<u8> },
}

/// The states a decoder can be in.
pub open spec fn model_wf(m: DecoderModel) -> bool {
    match m {
        DecoderModel::ReadLength { len_bytes, .. } => len_bytes.len() < 4,
        DecoderModel::ReadData { length, payload, .. } => 0 < length <= MAX_PACKET_SIZE
            && payload.len() < length,
        DecoderModel::WaitEnd { payload, .. } => payload.len() <= MAX_PACKET_SIZE,
        _ => true,
    }
}

/// What one byte does to a decoder: the next state, and the packet it completes, if any.
///
/// A delimiter inside a frame restarts it (the delimiter is taken as the opening
/// one of a new frame); an unknown type byte, an oversized length or a missing
/// closing delimiter drop the frame. A frame whose payload is malformed for its
/// type completes no packet.
pub open spec fn step(m: DecoderModel, b: u8) -> (DecoderModel, Option<PacketView>) {
    match m {
        DecoderModel::WaitStart => if b == FRAME_DELIMITER {
            (DecoderModel::ReadType, None)
        } else {
            (DecoderModel::WaitStart, None)
        },
        DecoderModel::ReadType => if b == FRAME_DELIMITER {
            (DecoderModel::ReadType, None)
        } else {
            match packet_type_from_byte(b) {
                Some(t) => (DecoderModel::ReadLength { ptype: t, len_bytes: seq![] }, None),
                None => (DecoderModel::WaitStart, None),
            }
        },
        DecoderModel::ReadLength { ptype, len_bytes } => if b == FRAME_DELIMITER {
            (DecoderModel::ReadType, None)
        } else {
            let lb = len_bytes.push(b);
            if lb.len() < 4 {
                (DecoderModel::ReadLength { ptype, len_bytes: lb }, None)
            } else {
                let n = le_u32_at(lb, 0);
                if n > MAX_PACKET_SIZE {
                    (DecoderModel::WaitStart, None)
                } else if n == 0 {
                    (DecoderModel::WaitEnd { ptype, payload: seq![] }, None)
                } else {
                    (DecoderModel::ReadData { ptype, length: n as nat, payload: seq![] }, None)
                }
            }
        },
        DecoderModel::ReadData { ptype, length, payload } => if b == FRAME_DELIMITER {
            (DecoderModel::ReadType, None)
        } else {
            let p = payload.push(b);
            if p.len() == length {
                (DecoderModel::WaitEnd { ptype, payload: p }, None)
            } else {
                (DecoderModel::ReadData { ptype, length, payload: p }, None)
            }
        },
        DecoderModel::WaitEnd { ptype, payload } => if b == FRAME_DELIMITER {
            (DecoderModel::WaitStart, parse_payload(ptype, payload))
        } else {
            (DecoderModel::WaitStart, None)
        },
    }
}

/// Feeding `bytes` to a decoder in state `m`, one by one: the final state and
/// the packets completed, in order.
pub open spec fn run(m: DecoderModel, bytes: Seq<u8>) -> (DecoderModel, Seq<PacketView>)
    decreases bytes.len(),
{
    if bytes.len() == 0 {
        (m, seq![])
    } else {
        let (m1, out) = run(m, bytes.drop_last());
        let (m2, o) = step(m1, bytes.last());
        (
            m2,
            match o {
                Some(p) => out.push(p),
                None => out,
            },
        )
    }
}

/// The view of an optional packet.
pub open spec fn opt_view(o: Option<DecodedPacket>) -> Option<PacketView> {
    match o {
        Some(p) => Some(p@),
        None => None,
    }
}

/// The name that [`NodeDecoder::current_state`] gives a state.
pub open spec fn state_name(m: DecoderModel) -> Seq<char> {
    match m {
        DecoderModel::WaitStart => "WaitStart"@,
        DecoderModel::ReadType => "ReadType"@,
        DecoderModel::ReadLength { .. } => "ReadLength"@,
        DecoderModel::ReadData { .. } => "ReadData"@,
        DecoderModel::WaitEnd { .. } => "WaitEnd"@,
    }
}

#[derive(Debug, Clone, Copy, PartialEq, Eq, Structural)]
enum DecodeState {
    WaitStart,
    ReadType,
    ReadLength,
    ReadData,
    WaitEnd,
}

/// Streaming decoder of node frames.
#[derive(Debug, Clone)]
pub struct NodeDecoder {
    state: DecodeState,
    buffer: Vec<u8>,
    current_packet_type: Option<PacketType>,
    current_length: u32,
    length_buffer: Vec<u8>,
}

impl View for NodeDecoder {
    type V = DecoderModel;

    closed spec fn view(&self) -> DecoderModel {
        match self.state {
            DecodeState::WaitStart => DecoderModel::WaitStart,
            DecodeState::ReadType => DecoderModel::ReadType,
            DecodeState::ReadLength => DecoderModel::ReadLength {
                ptype: self.current_packet_type.unwrap(),
                len_bytes: self.length_buffer@,
            },
            DecodeState::ReadData => DecoderModel::ReadData {
                ptype: self.current_packet_type.unwrap(),
                length: self.current_length as nat,
                payload: self.buffer@,
            },
            DecodeState::WaitEnd => DecoderModel::WaitEnd {
                ptype: self.current_packet_type.unwrap(),
                payload: self.buffer@,
            },
        }
    }
}

impl NodeDecoder {
    /// The decoder's internal invariant.
    pub closed spec fn wf(&self) -> bool {
        &&& model_wf(self@)
        &&& match self.state {
            DecodeState::ReadLength => self.current_packet_type is Some,
            DecodeState::ReadData => self.current_packet_type is Some,
            DecodeState::WaitEnd => self.current_packet_type is Some && self.buffer@.len()
                == self.current_length,
            _ => true,
        }
    }

    /// A decoder waiting for the start of a frame.
    pub fn new() -> (d: NodeDecoder)
        ensures
            d.wf(),
            d@ == DecoderModel::WaitStart,
    {
        NodeDecoder {
            state: DecodeState::WaitStart,
            buffer: Vec::new(),
            current_packet_type: None,
            current_length: 0,
            length_buffer: Vec::new(),
        }
    }

    /// Drops any partial frame: the decoder waits for the start of a frame.
    pub fn reset(&mut self)
        ensures
            final(self).wf(),
            final(self)@ == DecoderModel::WaitStart,
    {
        self.state = DecodeState::WaitStart;
        self.buffer.clear();
        self.current_packet_type = None;
        self.current_length = 0;
        self.length_buffer.clear();
    }

    /// Feeds the bytes of `data` in order; returns the packets they complete, in order.
    pub fn decode(&mut self, data: &[u8]) -> (packets: Vec<DecodedPacket>)
        requires
            old(self).wf(),
        ensures
            final(self).wf(),
            final(self)@ == run(old(self)@, data@).0,
            packets@.map_values(|p: DecodedPacket| p@) == run(old(self)@, data@).1,
    {
        let mut decoded_packets: Vec<DecodedPacket> = Vec::new();
        let mut i: usize = 0;
        while i < data.len()
            invariant
                i <= data@.len(),
                self.wf(),
                self@ == run(old(self)@, data@.take(i as int)).0,
                decoded_packets@.map_values(|p: DecodedPacket| p@) == run(
                    old(self)@,
                    data@.take(i as int),
                ).1,
            decreases data@.len() - i,
        {
            let ghost before = decoded_packets@;
            let byte = data[i];
            let o = self.process_byte(byte);
            match o {
                Some(packet) => {
                    decoded_packets.push(packet);
                },
                None => {},
            }
            proof {
                assert(data@.take(i + 1).drop_last() =~= data@.take(i as int));
                assert(data@.take(i + 1).last() == byte);
                assert(decoded_packets@.map_values(|p: DecodedPacket| p@) =~= run(
                    old(self)@,
                    data@.take(i + 1),
                ).1);
            }
            i = i + 1;
        }
        assert(data@.take(i as int) =~= data@);
        decoded_packets
    }

    /// Feeds one byte; returns the packet it completes, if any.
    fn process_byte(&mut self, byte: u8) -> (o: Option<DecodedPacket>)
        requires
            old(self).wf(),
        ensures
            final(self).wf(),
            (final(self)@, opt_view(o)) == step(old(self)@, byte),
    {
        match self.state {
            DecodeState::WaitStart => {
                if byte == FRAME_DELIMITER {
                    self.state = DecodeState::ReadType;
                    self.buffer.clear();
                    self.length_buffer.clear();
                }
                None
            },
            DecodeState::ReadType => {
                if byte == FRAME_DELIMITER {
                    self.reset();
                    self.state = DecodeState::ReadType;
                    None
                } else {
                    match PacketType::try_from(byte) {
                        Ok(packet_type) => {
                            self.current_packet_type = Some(packet_type);
                            self.state = DecodeState::ReadLength;
                            self.current_length = 0;
                            self.length_buffer.clear();
                            None
                        },
                        Err(_) => {
                            self.reset();
                            None
                        },
                    }
                }
            },
            DecodeState::ReadLength => {
                if byte == FRAME_DELIMITER {
                    self.reset();
                    self.state = DecodeState::ReadType;
                } else {
                    self.length_buffer.push(byte);
                    if self.length_buffer.len() == 4 {
                        self.current_length = read_u32_le(self.length_buffer.as_slice(), 0);
                        if self.current_length as usize > MAX_PACKET_SIZE {
                            self.reset();
                        } else if self.current_length == 0 {
                            self.buffer.clear();
                            self.state = DecodeState::WaitEnd;
                        } else {
                            self.state = DecodeState::ReadData;
                            self.buffer.clear();
                        }
                    }
                }
                None
            },
            DecodeState::ReadData => {
                if byte == FRAME_DELIMITER && self.buffer.len() == self.current_length as usize {
                    let packet = self.parse_packet();
                    self.reset();
                    packet
                } else if byte == FRAME_DELIMITER && self.buffer.len()
                    < self.current_length as usize {
                    self.reset();
                    self.state = DecodeState::ReadType;
                    None
                } else {
                    self.buffer.push(byte);
                    if self.buffer.len() == self.current_length as usize {
                        self.state = DecodeState::WaitEnd;
                    } else if self.buffer.len() > self.current_length as usize {
                        self.reset();
                    }
                    None
                }
            },
            DecodeState::WaitEnd => {
                if byte == FRAME_DELIMITER {
                    let packet = self.parse_packet();
                    self.reset();
                    packet
                } else {
                    self.reset();
                    None
                }
            },
        }
    }

    /// The packet that the collected payload stands for, if it is well formed for its type.
    fn parse_packet(&self) -> (o: Option<DecodedPacket>)
        requires
            self.current_packet_type is Some,
        ensures
            opt_view(o) == parse_payload(self.current_packet_type.unwrap(), self.buffer@),
    {
        let packet_type = match self.current_packet_type {
            Some(t) => t,
            None => {
                return None;
            },
        };
        let buf = self.buffer.as_slice();
        match packet_type {
            PacketType::CmdQueryInfo => Some(DecodedPacket::CmdQueryInfo),
            PacketType::CmdSetLoraParam => {
                if buf.len() == SET_LORA_PARAM_PAYLOAD_SIZE {
                    match NodeWorkingMode::try_from(buf[0]) {
                        Ok(mode) => {
                            let params = read_lora_param(buf, 1);
                            Some(
                                DecodedPacket::CmdSetLoraParam(
                                    SetLoraParamPayload { node_working_mode: mode, params },
                                ),
                            )
                        },
                        Err(_) => None,
                    }
                } else {
                    None
                }
            },
            PacketType::TxData => {
                if buf.len() >= TX_HEADER_SIZE {
                    let len = read_i32_le(buf, 0);
                    let data = slice_to_vec(slice_skip(buf, 4));
                    Some(DecodedPacket::TxData(TxDataPacket { len, data }))
                } else {
                    None
                }
            },
            PacketType::RxData => {
                if buf.len() >= RX_HEADER_SIZE {
                    let rssi_bits = read_u32_le(buf, 0);
                    let snr_bits = read_u32_le(buf, 4);
                    let len = read_i32_le(buf, 8);
                    let crc_status = read_i32_le(buf, 12);
                    let data = slice_to_vec(slice_skip(buf, 16));
                    Some(
                        DecodedPacket::RxData(
                            RxDataPacket { rssi_bits, snr_bits, len, crc_status, data },
                        ),
                    )
                } else {
                    None
                }
            },
            PacketType::RetNodeInfo => {
                if buf.len() == QUERY_INFO_PAYLOAD_SIZE {
                    match NodeWorkingMode::try_from(buf[6]) {
                        Ok(mode) => {
                            let node_id = [buf[0], buf[1], buf[2], buf[3], buf[4], buf[5]];
                            let node_info = read_lora_param(buf, 7);
                            Some(
                                DecodedPacket::RetNodeInfo(
                                    CmdQueryInfoPayload {
                                        node_id,
                                        node_working_mode: mode,
                                        node_info,
                                    },
                                ),
                            )
                        },
                        Err(_) => None,
                    }
                } else {
                    None
                }
            },
        }
    }

    /// The name of the decoder's current state.
    pub fn current_state(&self) -> (name: &'static str)
        ensures
            name@ == state_name(self@),
    {
        match self.state {
            DecodeState::WaitStart => "WaitStart",
            DecodeState::ReadType => "ReadType",
            DecodeState::ReadLength => "ReadLength",
            DecodeState::ReadData => "ReadData",
            DecodeState::WaitEnd => "WaitEnd",
        }
    }
}

/// The bytes of `s` from position `n` on.
fn slice_skip(s: &[u8], n: usize) -> (r: &[u8])
    requires
        n <= s@.len(),
    ensures
        r@ == s@.skip(n as int),
{
    let r = &s[n..s.len()];
    assert(r@ =~= s@.skip(n as int));
    r
}

/// The bytes of the frame that carries packet `p`.
pub open spec fn frame_bytes(p: PacketView) -> Seq<u8> {
    seq![FRAME_DELIMITER, packet_type_byte(view_packet_type(p))] + u32_le(
        payload_bytes(p).len() as u32,
    ) + payload_bytes(p) + seq![FRAME_DELIMITER]
}

/// Encoder of node frames.
#[derive(Debug, Clone)]
pub struct NodeEncoder;

impl NodeEncoder {
    /// An encoder.
    pub fn new() -> (e: NodeEncoder) {
        NodeEncoder
    }

    /// The frame that carries `packet`.
    ///
    /// The length field holds the payload length truncated to 32 bits.
    pub fn encode(&self, packet: &DecodedPacket) -> (bytes: Vec<u8>)
        ensures
            bytes@ == frame_bytes(packet@),
    {
        let mut result: Vec<u8> = Vec::new();
        result.push(FRAME_DELIMITER);
        result.push(packet.packet_type().to_byte());

        let mut payload: Vec<u8> = Vec::new();
        match packet {
            DecodedPacket::CmdQueryInfo => {},
            DecodedPacket::CmdSetLoraParam(p) => {
                payload.push(p.node_working_mode.to_byte());
                push_lora_param(&mut payload, &p.params);
            },
            DecodedPacket::TxData(tx_data) => {
                push_i32_le(&mut payload, tx_data.len);
                push_bytes(&mut payload, tx_data.data.as_slice());
            },
            DecodedPacket::RxData(rx_data) => {
                push_u32_le(&mut payload, rx_data.rssi_bits);
                push_u32_le(&mut payload, rx_data.snr_bits);
                push_i32_le(&mut payload, rx_data.len);
                push_i32_le(&mut payload, rx_data.crc_status);
                push_bytes(&mut payload, rx_data.data.as_slice());
            },
            DecodedPacket::RetNodeInfo(info) => {
                push_bytes(&mut payload, &info.node_id);
                payload.push(info.node_working_mode.to_byte());
                push_lora_param(&mut payload, &info.node_info);
            },
        }
        assert(payload@ =~= payload_bytes(packet@));

        let length = payload.len() as u32;
        push_u32_le(&mut result, length);
        push_bytes(&mut result, payload.as_slice());
        result.push(FRAME_DELIMITER);
        assert(result@ =~= frame_bytes(packet@));
        result
    }

    /// The frame of a node-information query.
    pub fn encode_query_info_command(&self) -> (bytes: Vec<u8>)
        ensures
            bytes@ == frame_bytes(PacketView::CmdQueryInfo),
    {
        self.encode(&DecodedPacket::CmdQueryInfo)
    }

    /// The frame of a command that sets a node's working mode and radio parameters.
    pub fn encode_set_lora_param(&self, mode: NodeWorkingMode, params: LoraParam) -> (bytes: Vec<
        u8,
    >)
        ensures
            bytes@ == frame_bytes(
                PacketView::CmdSetLoraParam(
                    SetLoraParamPayload { node_working_mode: mode, params },
                ),
            ),
    {
        let payload = SetLoraParamPayload { node_working_mode: mode, params };
        self.encode(&DecodedPacket::CmdSetLoraParam(payload))
    }

    /// The frame that hands `data` to a TX node; its `len` field is the data
    /// length truncated to `i32`.
    pub fn encode_tx_data(&self, data: &[u8]) -> (bytes: Vec<u8>)
        ensures
            bytes@ == frame_bytes(
                PacketView::TxData(TxDataView { len: data@.len() as i32, data: data@ }),
            ),
    {
        let packet = TxDataPacket { len: data.len() as i32, data: slice_to_vec(data) };
        self.encode(&DecodedPacket::TxData(packet))
    }
}

} // verus!
