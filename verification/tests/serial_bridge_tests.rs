use aerolink_simple::node_codec::NodeEncoder;
use aerolink_simple::node_packets::{
    CmdQueryInfoPayload, DecodedPacket, LoraParam, NodeWorkingMode, PacketType, RxDataPacket,
};
use aerolink_simple::serial_bridge::{ChunkAction, NodeReport, SerialBridge};

fn rx_frame(crc_status: i32, data: &[u8]) -> Vec<u8> {
    NodeEncoder::new().encode(&DecodedPacket::RxData(RxDataPacket {
        rssi_bits: 0,
        snr_bits: 0,
        len: data.len() as i32,
        crc_status,
        data: data.to_vec(),
    }))
}

#[test]
fn data_is_sent_in_tx_frames() {
    let mut b = SerialBridge::new();
    let data = vec![1u8; 300];
    let actions = b.on_data(&data, true);
    assert_eq!(actions.len(), 2);
    match &actions[0] {
        ChunkAction::Send { frame, data_len } => {
            assert_eq!(*data_len, 255);
            assert_eq!(*frame, NodeEncoder::new().encode_tx_data(&data[..255]));
        }
        other => panic!("unexpected {:?}", other),
    }
    match &actions[1] {
        ChunkAction::Send { frame, data_len } => {
            assert_eq!(*data_len, 45);
            assert_eq!(frame.len(), 2 + 4 + 4 + 45 + 1);
        }
        other => panic!("unexpected {:?}", other),
    }
}

#[test]
fn data_is_dropped_without_tx_node() {
    let mut b = SerialBridge::new();
    let actions = b.on_data(&[9u8; 10], false);
    assert_eq!(actions.len(), 1);
    assert!(matches!(actions[0], ChunkAction::Drop { data_len: 10 }));
}

#[test]
fn rx_node_data_forwarded_only_with_good_crc() {
    let mut b = SerialBridge::new();
    let mut stream = rx_frame(1, &[1, 2]);
    stream.extend_from_slice(&rx_frame(0, &[3]));
    let reports = b.on_rx_node_bytes(&stream);
    assert_eq!(reports.len(), 2);
    match &reports[0] {
        NodeReport::Forward(rx) => assert_eq!(rx.data, vec![1, 2]),
        other => panic!("unexpected {:?}", other),
    }
    assert!(matches!(reports[1], NodeReport::DropCrcError(_)));
}

#[test]
fn tx_node_data_is_only_reported() {
    let mut b = SerialBridge::new();
    let reports = b.on_tx_node_bytes(&rx_frame(1, &[1]));
    assert_eq!(reports.len(), 1);
    assert!(matches!(reports[0], NodeReport::Other(PacketType::RxData)));
}

#[test]
fn node_info_is_reported() {
    let mut b = SerialBridge::new();
    let frame = NodeEncoder::new().encode(&DecodedPacket::RetNodeInfo(CmdQueryInfoPayload {
        node_id: [1, 2, 3, 4, 5, 6],
        node_working_mode: NodeWorkingMode::Tx,
        node_info: LoraParam::default(),
    }));
    let (first, second) = frame.split_at(10);
    assert!(b.on_tx_node_bytes(first).is_empty());
    let reports = b.on_tx_node_bytes(second);
    match &reports[0] {
        NodeReport::NodeInfo(info) => assert_eq!(info.node_id, [1, 2, 3, 4, 5, 6]),
        other => panic!("unexpected {:?}", other),
    }
    let reports = b.on_rx_node_bytes(&NodeEncoder::new().encode_query_info_command());
    assert!(matches!(reports[0], NodeReport::Other(PacketType::CmdQueryInfo)));
}
