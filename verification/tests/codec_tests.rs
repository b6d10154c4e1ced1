use aerolink_simple::node_codec::{NodeDecoder, NodeEncoder, FRAME_DELIMITER};
use aerolink_simple::node_packets::{
    CmdQueryInfoPayload, DecodedPacket, LoraParam, NodeWorkingMode, PacketType, RxDataPacket,
    SetLoraParamPayload, TxDataPacket, DEFAULT_BANDWIDTH_BITS, DEFAULT_FREQUENCY_BITS,
};

fn sample_params() -> LoraParam {
    LoraParam {
        frequency_bits: 444.0f32.to_bits(),
        bandwidth_bits: 500.0f32.to_bits(),
        spreading_factor: 5,
        coding_rate: 5,
        sync_word: 0x12,
        tx_power: -3,
        preamble_length: 0x1234,
    }
}

fn decode_all(bytes: &[u8]) -> Vec<DecodedPacket> {
    let mut d = NodeDecoder::new();
    d.decode(bytes)
}

#[test]
fn default_lora_param_values() {
    let p = LoraParam::default();
    assert_eq!(f32::from_bits(p.frequency_bits), 434.0);
    assert_eq!(f32::from_bits(p.bandwidth_bits), 125.0);
    assert_eq!(f32::from_bits(DEFAULT_FREQUENCY_BITS), 434.0);
    assert_eq!(f32::from_bits(DEFAULT_BANDWIDTH_BITS), 125.0);
    assert_eq!(p.spreading_factor, 9);
    assert_eq!(p.coding_rate, 5);
    assert_eq!(p.sync_word, 0x12);
    assert_eq!(p.tx_power, 10);
    assert_eq!(p.preamble_length, 8);
}

#[test]
fn packet_type_bytes() {
    assert_eq!(PacketType::try_from(0x01), Ok(PacketType::CmdQueryInfo));
    assert_eq!(PacketType::try_from(0x05), Ok(PacketType::RetNodeInfo));
    assert_eq!(PacketType::try_from(0x06), Err(()));
    assert_eq!(PacketType::try_from(0x00), Err(()));
    assert_eq!(PacketType::RxData.to_byte(), 0x04);
    assert_eq!(NodeWorkingMode::try_from(0xFF), Ok(NodeWorkingMode::NotSet));
    assert_eq!(NodeWorkingMode::try_from(0x03), Err(()));
    assert_eq!(NodeWorkingMode::Rx.to_byte(), 0x02);
}

#[test]
fn encode_query_info_frame() {
    let e = NodeEncoder::new();
    assert_eq!(e.encode_query_info_command(), vec![0x7E, 0x01, 0, 0, 0, 0, 0x7E]);
}

#[test]
fn encode_tx_data_frame() {
    let e = NodeEncoder::new();
    assert_eq!(
        e.encode_tx_data(&[0xAA, 0xBB, 0xCC]),
        vec![0x7E, 0x03, 7, 0, 0, 0, 3, 0, 0, 0, 0xAA, 0xBB, 0xCC, 0x7E]
    );
}

#[test]
fn encode_set_lora_param_frame() {
    let e = NodeEncoder::new();
    let bytes = e.encode_set_lora_param(NodeWorkingMode::Tx, LoraParam::default());
    assert_eq!(
        bytes,
        vec![
            0x7E, 0x02, 15, 0, 0, 0, 0x01, 0x00, 0x00, 0xD9, 0x43, 0x00, 0x00, 0xFA, 0x42, 9, 5,
            0x12, 10, 8, 0, 0x7E
        ]
    );
}

#[test]
fn encode_rx_data_and_node_info_frames() {
    let e = NodeEncoder::new();
    let rx = DecodedPacket::RxData(RxDataPacket {
        rssi_bits: 0x0403_0201,
        snr_bits: 0x0807_0605,
        len: -1,
        crc_status: 1,
        data: vec![9],
    });
    assert_eq!(
        e.encode(&rx),
        vec![0x7E, 0x04, 17, 0, 0, 0, 1, 2, 3, 4, 5, 6, 7, 8, 0xFF, 0xFF, 0xFF, 0xFF, 1, 0, 0, 0, 9, 0x7E]
    );
    let info = DecodedPacket::RetNodeInfo(CmdQueryInfoPayload {
        node_id: [1, 2, 3, 4, 5, 6],
        node_working_mode: NodeWorkingMode::Rx,
        node_info: LoraParam::default(),
    });
    let bytes = e.encode(&info);
    assert_eq!(bytes.len(), 2 + 4 + 21 + 1);
    assert_eq!(&bytes[0..6], &[0x7E, 0x05, 21, 0, 0, 0]);
    assert_eq!(&bytes[6..13], &[1, 2, 3, 4, 5, 6, 0x02]);
}

#[test]
fn roundtrip_every_packet_kind() {
    let e = NodeEncoder::new();
    let packets = vec![
        DecodedPacket::CmdQueryInfo,
        DecodedPacket::CmdSetLoraParam(SetLoraParamPayload {
            node_working_mode: NodeWorkingMode::Rx,
            params: sample_params(),
        }),
        DecodedPacket::TxData(TxDataPacket { len: 3, data: vec![1, 2, 3] }),
        DecodedPacket::RxData(RxDataPacket {
            rssi_bits: (-87.5f32).to_bits(),
            snr_bits: 6.25f32.to_bits(),
            len: 2,
            crc_status: 0,
            data: vec![0x10, 0x20],
        }),
        DecodedPacket::RetNodeInfo(CmdQueryInfoPayload {
            node_id: [0xA0, 0xA1, 0xA2, 0xA3, 0xA4, 0xA5],
            node_working_mode: NodeWorkingMode::NotSet,
            node_info: sample_params(),
        }),
    ];
    let mut stream = Vec::new();
    for p in &packets {
        stream.extend_from_slice(&e.encode(p));
    }
    let decoded = decode_all(&stream);
    assert_eq!(decoded.len(), packets.len());
    assert!(matches!(decoded[0], DecodedPacket::CmdQueryInfo));
    match &decoded[1] {
        DecodedPacket::CmdSetLoraParam(p) => {
            assert_eq!(p.node_working_mode, NodeWorkingMode::Rx);
            assert_eq!(p.params, sample_params());
        }
        other => panic!("unexpected {:?}", other),
    }
    match &decoded[2] {
        DecodedPacket::TxData(t) => {
            assert_eq!(t.len, 3);
            assert_eq!(t.data, vec![1, 2, 3]);
        }
        other => panic!("unexpected {:?}", other),
    }
    match &decoded[3] {
        DecodedPacket::RxData(r) => {
            assert_eq!(f32::from_bits(r.rssi_bits), -87.5);
            assert_eq!(f32::from_bits(r.snr_bits), 6.25);
            assert_eq!(r.len, 2);
            assert_eq!(r.crc_status, 0);
            assert_eq!(r.data, vec![0x10, 0x20]);
        }
        other => panic!("unexpected {:?}", other),
    }
    match &decoded[4] {
        DecodedPacket::RetNodeInfo(q) => {
            assert_eq!(q.node_id, [0xA0, 0xA1, 0xA2, 0xA3, 0xA4, 0xA5]);
            assert_eq!(q.node_working_mode, NodeWorkingMode::NotSet);
            assert_eq!(q.node_info, sample_params());
        }
        other => panic!("unexpected {:?}", other),
    }
}

#[test]
fn decoding_does_not_depend_on_chunking() {
    let e = NodeEncoder::new();
    let mut stream = e.encode_tx_data(&[5, 6, 7, 8]);
    stream.extend_from_slice(&e.encode_query_info_command());
    let whole = decode_all(&stream);
    let mut d = NodeDecoder::new();
    let mut pieces = Vec::new();
    for b in &stream {
        pieces.extend(d.decode(&[*b]));
    }
    assert_eq!(whole.len(), 2);
    assert_eq!(pieces.len(), 2);
    assert_eq!(d.current_state(), "WaitStart");
    match &pieces[0] {
        DecodedPacket::TxData(t) => assert_eq!(t.data, vec![5, 6, 7, 8]),
        other => panic!("unexpected {:?}", other),
    }
}

#[test]
fn delimiter_inside_payload_breaks_the_frame() {
    let e = NodeEncoder::new();
    let frame = e.encode_tx_data(&[1, FRAME_DELIMITER, 2]);
    assert!(decode_all(&frame).is_empty());
    // a payload of 126 bytes puts 0x7E in the length field
    let frame = e.encode_tx_data(&[0u8; 122]);
    assert_eq!(frame[2], 0x7E);
    assert!(decode_all(&frame).is_empty());
}

#[test]
fn states_while_reading_a_frame() {
    let mut d = NodeDecoder::new();
    assert_eq!(d.current_state(), "WaitStart");
    assert!(d.decode(&[0x11, 0x7E]).is_empty());
    assert_eq!(d.current_state(), "ReadType");
    d.decode(&[0x7E]);
    assert_eq!(d.current_state(), "ReadType");
    d.decode(&[0x03, 2, 0]);
    assert_eq!(d.current_state(), "ReadLength");
    d.decode(&[0, 0, 0xAB]);
    assert_eq!(d.current_state(), "ReadData");
    d.decode(&[0xCD]);
    assert_eq!(d.current_state(), "WaitEnd");
    d.reset();
    assert_eq!(d.current_state(), "WaitStart");
}

#[test]
fn unknown_type_byte_drops_frame() {
    let mut d = NodeDecoder::new();
    assert!(d.decode(&[0x7E, 0x09, 0, 0, 0, 0, 0x7E]).is_empty());
    // the closing delimiter of the dropped frame opened a new one
    assert_eq!(d.current_state(), "ReadType");
}

#[test]
fn oversized_length_drops_frame() {
    let mut d = NodeDecoder::new();
    // 65537 bytes announced
    assert!(d.decode(&[0x7E, 0x03, 0x01, 0x00, 0x01, 0x00]).is_empty());
    assert_eq!(d.current_state(), "WaitStart");
    // exactly the limit is accepted
    let mut d = NodeDecoder::new();
    d.decode(&[0x7E, 0x03, 0x00, 0x00, 0x01, 0x00]);
    assert_eq!(d.current_state(), "ReadData");
}

#[test]
fn missing_closing_delimiter_drops_frame() {
    let mut d = NodeDecoder::new();
    assert!(d.decode(&[0x7E, 0x01, 0, 0, 0, 0, 0x00]).is_empty());
    assert_eq!(d.current_state(), "WaitStart");
}

#[test]
fn delimiter_inside_partial_frame_restarts() {
    let e = NodeEncoder::new();
    let mut stream = vec![0x7E, 0x03, 10, 0, 0, 0, 1, 2];
    stream.extend_from_slice(&e.encode_query_info_command());
    let out = decode_all(&stream);
    assert_eq!(out.len(), 1);
    assert!(matches!(out[0], DecodedPacket::CmdQueryInfo));
}

#[test]
fn malformed_payloads_give_no_packet() {
    // set-parameters payload of the wrong size
    assert!(decode_all(&[0x7E, 0x02, 1, 0, 0, 0, 0x01, 0x7E]).is_empty());
    // node-information payload with an unknown mode byte
    let mut frame = vec![0x7E, 0x05, 21, 0, 0, 0, 1, 2, 3, 4, 5, 6, 0x09];
    frame.extend_from_slice(&[0u8; 14]);
    frame.push(0x7E);
    assert!(decode_all(&frame).is_empty());
    // TX data shorter than its header
    assert!(decode_all(&[0x7E, 0x03, 3, 0, 0, 0, 1, 2, 3, 0x7E]).is_empty());
    // RX data shorter than its header
    assert!(decode_all(&[0x7E, 0x04, 1, 0, 0, 0, 1, 0x7E]).is_empty());
    // a query command ignores its payload
    let out = decode_all(&[0x7E, 0x01, 2, 0, 0, 0, 1, 2, 0x7E]);
    assert_eq!(out.len(), 1);
    assert_eq!(out[0].packet_type(), PacketType::CmdQueryInfo);
}

#[test]
fn tx_len_field_is_independent_of_data() {
    let out = decode_all(&[0x7E, 0x03, 6, 0, 0, 0, 0xFF, 0xFF, 0xFF, 0x7F, 1, 2, 0x7E]);
    match &out[0] {
        DecodedPacket::TxData(t) => {
            assert_eq!(t.len, i32::MAX);
            assert_eq!(t.data, vec![1, 2]);
        }
        other => panic!("unexpected {:?}", other),
    }
}
