//! The decisions of the serial bridge: what to send to the TX node for data
//! read from the data port, and what to make of the bytes the nodes send back.
use crate::bridge::{bytes_mut_contents, drain_into_chunks, tx_chunks};
use crate::node_codec::{frame_bytes, run, DecoderModel, NodeDecoder, NodeEncoder};
use crate::node_packets::{
    view_packet_type, CmdQueryInfoPayload, DecodedPacket, PacketType, PacketView, RxDataPacket,
    TxDataView,
};
use bytes::BytesMut;
use vstd::prelude::*;

verus! {

/// `BytesMut::new`: an empty buffer.
#[verifier::external_body]
fn bytes_mut_new() -> (b: BytesMut)
    ensures
        bytes_mut_contents(b) == Seq::<u8>::empty(),
{
    BytesMut::new()
}

/// What to do with a piece of the data read from the data port.
#[derive(Debug, Clone)]
pub enum ChunkAction {
    /// Write `frame`, the TX packet carrying `data_len` bytes, to the TX node.
    Send { frame: Vec<u8>, data_len: usize },
    /// There is no TX node: the `data_len` bytes are dropped.
    Drop { data_len: usize },
}

/// What a packet received from a node calls for.
#[derive(Debug, Clone)]
pub enum NodeReport {
    /// Received data whose CRC check passed: forward its data to the data port.
    Forward(RxDataPacket),
    /// Received data whose CRC check failed: drop it.
    DropCrcError(RxDataPacket),
    /// The node reported its identity and settings.
    NodeInfo(CmdQueryInfoPayload),
    /// Any other packet: report its type.
    Other(PacketType),
}

/// The action for a piece `c` of the data.
pub open spec fn chunk_action_matches(a: ChunkAction, c: Seq<u8>, has_tx_node: bool) -> bool {
    if has_tx_node {
        a matches ChunkAction::Send { frame, data_len } && data_len == c.len() && frame@
            == frame_bytes(PacketView::TxData(TxDataView { len: c.len() as i32, data: c }))
    } else {
        a matches ChunkAction::Drop { data_len } && data_len == c.len()
    }
}

/// The report for a packet `p` received from a node; only the RX node's data
/// packets are forwarded or dropped, the TX node's are reported by type.
pub open spec fn node_report_matches(r: NodeReport, p: PacketView, from_rx_node: bool) -> bool {
    match p {
        PacketView::RxData(v) => if !from_rx_node {
            r == NodeReport::Other(PacketType::RxData)
        } else if v.crc_status == 1 {
            r matches NodeReport::Forward(x) && x@ == v
        } else {
            r matches NodeReport::DropCrcError(x) && x@ == v
        },
        PacketView::RetNodeInfo(q) => r == NodeReport::NodeInfo(q),
        _ => r == NodeReport::Other(view_packet_type(p)),
    }
}

/// The report for a packet received from a node.
fn classify(packet: DecodedPacket, from_rx_node: bool) -> (r: NodeReport)
    ensures
        node_report_matches(r, packet@, from_rx_node),
{
    match packet {
        DecodedPacket::RxData(rx) => if !from_rx_node {
            NodeReport::Other(PacketType::RxData)
        } else if rx.crc_status == 1 {
            NodeReport::Forward(rx)
        } else {
            NodeReport::DropCrcError(rx)
        },
        DecodedPacket::RetNodeInfo(info) => NodeReport::NodeInfo(info),
        other => NodeReport::Other(other.packet_type()),
    }
}

/// The state of a serial bridge: the pending outgoing data and a decoder for
/// each node.
pub struct SerialBridge {
    accumulator: BytesMut,
    tx_decoder: NodeDecoder,
    rx_decoder: NodeDecoder,
    encoder: NodeEncoder,
}

impl SerialBridge {
    /// The state of the decoder of the TX node's bytes.
    pub closed spec fn tx_state(&self) -> DecoderModel {
        self.tx_decoder@
    }

    /// The state of the decoder of the RX node's bytes.
    pub closed spec fn rx_state(&self) -> DecoderModel {
        self.rx_decoder@
    }

    /// The bridge's invariant: both decoders are sound and no outgoing data is pending.
    pub closed spec fn wf(&self) -> bool {
        &&& self.tx_decoder.wf()
        &&& self.rx_decoder.wf()
        &&& bytes_mut_contents(self.accumulator) == Seq::<u8>::empty()
    }

    /// A bridge with nothing pending and both decoders waiting for a frame.
    pub fn new() -> (b: SerialBridge)
        ensures
            b.wf(),
            b.tx_state() == DecoderModel::WaitStart,
            b.rx_state() == DecoderModel::WaitStart,
    {
        SerialBridge {
            accumulator: bytes_mut_new(),
            tx_decoder: NodeDecoder::new(),
            rx_decoder: NodeDecoder::new(),
            encoder: NodeEncoder::new(),
        }
    }

    /// Data read from the data port: cut into pieces of at most 255 bytes, in
    /// order, each sent to the TX node in a TX packet, or dropped when there is
    /// no TX node.
    pub fn on_data(&mut self, data: &[u8], has_tx_node: bool) -> (actions: Vec<ChunkAction>)
        requires
            old(self).wf(),
        ensures
            final(self).wf(),
            final(self).tx_state() == old(self).tx_state(),
            final(self).rx_state() == old(self).rx_state(),
            actions@.len() == tx_chunks(data@).len(),
            forall|i: int|
                0 <= i < actions@.len() ==> chunk_action_matches(
                    #[trigger] actions@[i],
                    tx_chunks(data@)[i],
                    has_tx_node,
                ),
    {
        let data_len = data.len();
        assert(data@.len() == data_len);
        let chunks = drain_into_chunks(&mut self.accumulator, data);
        assert(Seq::<u8>::empty() + data@ =~= data@);
        let ghost cs = tx_chunks(data@);
        let mut actions: Vec<ChunkAction> = Vec::new();
        let mut i: usize = 0;
        while i < chunks.len()
            invariant
                i <= chunks@.len(),
                chunks@.map_values(|c: Vec<u8>| c@) == cs,
                actions@.len() == i,
                forall|k: int|
                    0 <= k < i ==> chunk_action_matches(#[trigger] actions@[k], cs[k], has_tx_node),
            decreases chunks@.len() - i,
        {
            let chunk = chunks[i].as_slice();
            assert(chunk@ == cs[i as int]);
            if has_tx_node {
                let frame = self.encoder.encode_tx_data(chunk);
                actions.push(ChunkAction::Send { frame, data_len: chunk.len() });
            } else {
                actions.push(ChunkAction::Drop { data_len: chunk.len() });
            }
            i = i + 1;
        }
        actions
    }

    /// Bytes read from the TX node: the reports for the packets they complete, in order.
    pub fn on_tx_node_bytes(&mut self, data: &[u8]) -> (reports: Vec<NodeReport>)
        requires
            old(self).wf(),
        ensures
            final(self).wf(),
            final(self).rx_state() == old(self).rx_state(),
            final(self).tx_state() == run(old(self).tx_state(), data@).0,
            reports@.len() == run(old(self).tx_state(), data@).1.len(),
            forall|i: int|
                0 <= i < reports@.len() ==> node_report_matches(
                    #[trigger] reports@[i],
                    run(old(self).tx_state(), data@).1[i],
                    false,
                ),
    {
        let packets = self.tx_decoder.decode(data);
        classify_all(packets, false)
    }

    /// Bytes read from the RX node: the reports for the packets they complete, in order.
    pub fn on_rx_node_bytes(&mut self, data: &[u8]) -> (reports: Vec<NodeReport>)
        requires
            old(self).wf(),
        ensures
            final(self).wf(),
            final(self).tx_state() == old(self).tx_state(),
            final(self).rx_state() == run(old(self).rx_state(), data@).0,
            reports@.len() == run(old(self).rx_state(), data@).1.len(),
            forall|i: int|
                0 <= i < reports@.len() ==> node_report_matches(
                    #[trigger] reports@[i],
                    run(old(self).rx_state(), data@).1[i],
                    true,
                ),
    {
        let packets = self.rx_decoder.decode(data);
        classify_all(packets, true)
    }
}

/// The reports for the packets, in order.
fn classify_all(packets: Vec<DecodedPacket>, from_rx_node: bool) -> (reports: Vec<NodeReport>)
    ensures
        reports@.len() == packets@.len(),
        forall|i: int|
            0 <= i < reports@.len() ==> node_report_matches(
                #[trigger] reports@[i],
                packets@.map_values(|p: DecodedPacket| p@)[i],
                from_rx_node,
            ),
{
    let ghost views = packets@.map_values(|p: DecodedPacket| p@);
    let ghost all = packets@;
    let mut reports: Vec<NodeReport> = Vec::new();
    let mut rest = packets;
    let total = rest.len();
    let mut i: usize = 0;
    while rest.len() > 0
        invariant
            total == all.len(),
            views == all.map_values(|p: DecodedPacket| p@),
            rest@ == all.skip(i as int),
            i <= all.len(),
            reports@.len() == i,
            forall|k: int|
                0 <= k < i ==> node_report_matches(#[trigger] reports@[k], views[k], from_rx_node),
        decreases rest@.len(),
    {
        let p = rest.remove(0);
        assert(p == all[i as int]);
        assert(rest@ =~= all.skip(i + 1));
        reports.push(classify(p, from_rx_node));
        i = i + 1;
    }
    assert(all.skip(i as int).len() == 0);
    reports
}

} // verus!
