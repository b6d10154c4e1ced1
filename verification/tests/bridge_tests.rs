use aerolink_simple::bridge::{
    confirms_working_mode, crc_ok, drain_into_chunks, is_register_request, registration_reply,
    should_give_up, RxDisposition, RxForwardStats, TX_CHUNK_SIZE,
};
use aerolink_simple::node_packets::{
    CmdQueryInfoPayload, DecodedPacket, LoraParam, NodeWorkingMode, RxDataPacket,
};
use bytes::BytesMut;

fn rx(crc_status: i32, data: Vec<u8>) -> RxDataPacket {
    RxDataPacket { rssi_bits: 0, snr_bits: 0, len: data.len() as i32, crc_status, data }
}

#[test]
fn chunks_of_at_most_255_bytes() {
    let mut acc = BytesMut::new();
    let data: Vec<u8> = (0..600u32).map(|i| (i % 251) as u8).collect();
    let chunks = drain_into_chunks(&mut acc, &data);
    assert!(acc.is_empty());
    assert_eq!(chunks.len(), 3);
    assert_eq!(chunks[0].len(), TX_CHUNK_SIZE);
    assert_eq!(chunks[1].len(), 255);
    assert_eq!(chunks[2].len(), 90);
    let joined: Vec<u8> = chunks.concat();
    assert_eq!(joined, data);
}

#[test]
fn chunks_include_what_was_already_accumulated() {
    let mut acc = BytesMut::new();
    acc.extend_from_slice(&[1, 2]);
    let chunks = drain_into_chunks(&mut acc, &[3]);
    assert_eq!(chunks, vec![vec![1, 2, 3]]);
    assert!(acc.is_empty());
}

#[test]
fn no_data_no_chunk() {
    let mut acc = BytesMut::new();
    assert!(drain_into_chunks(&mut acc, &[]).is_empty());
    let exact = vec![7u8; 255];
    let chunks = drain_into_chunks(&mut acc, &exact);
    assert_eq!(chunks, vec![exact]);
}

#[test]
fn crc_decides_forwarding() {
    assert!(crc_ok(&rx(1, vec![1])));
    assert!(!crc_ok(&rx(0, vec![1])));
    assert!(!crc_ok(&rx(2, vec![])));
}

#[test]
fn forward_stats_count_packets_errors_and_bytes() {
    let mut s = RxForwardStats::new();
    assert_eq!(s.record(&rx(1, vec![1, 2, 3])), RxDisposition::Forward);
    assert_eq!(s.record(&rx(0, vec![4])), RxDisposition::DropCrcError);
    assert_eq!(s.record(&rx(1, vec![])), RxDisposition::Empty);
    assert_eq!(s.packet_count, 3);
    assert_eq!(s.error_count, 1);
    assert_eq!(s.total_bytes, 3);
}

#[test]
fn forward_stats_wrap_around() {
    let mut s = RxForwardStats { packet_count: u64::MAX, error_count: 0, total_bytes: u64::MAX };
    s.record(&rx(1, vec![1, 2]));
    assert_eq!(s.packet_count, 0);
    assert_eq!(s.total_bytes, 1);
}

#[test]
fn retry_gives_up_after_five_attempts() {
    assert!(!should_give_up(1));
    assert!(!should_give_up(4));
    assert!(should_give_up(5));
    assert!(should_give_up(6));
}

#[test]
fn node_confirmation_requires_matching_mode() {
    let info = DecodedPacket::RetNodeInfo(CmdQueryInfoPayload {
        node_id: [0; 6],
        node_working_mode: NodeWorkingMode::Tx,
        node_info: LoraParam::default(),
    });
    assert!(confirms_working_mode(&info, NodeWorkingMode::Tx));
    assert!(!confirms_working_mode(&info, NodeWorkingMode::Rx));
    assert!(!confirms_working_mode(&DecodedPacket::CmdQueryInfo, NodeWorkingMode::Tx));
}

#[test]
fn registration_requests() {
    assert!(is_register_request(b"REGISTER"));
    assert!(is_register_request(b"REGISTER me please"));
    assert!(!is_register_request(b"REGISTE"));
    assert!(!is_register_request(b"register"));
    assert!(!is_register_request(b"hello world"));
    assert_eq!(registration_reply(), b"REGISTERED".to_vec());
}
