//! Decisions of the serial/LoRa bridge: how accumulated outgoing data is cut
//! into TX packets, which received packets are forwarded, and when opening a
//! port is given up.
use crate::node_packets::{DecodedPacket, NodeWorkingMode, PacketView, RxDataPacket};
use bytes::BytesMut;
use vstd::prelude::*;

verus! {

#[verifier::external_type_specification]
#[verifier::external_body]
pub struct ExBytesMut(bytes::BytesMut);

/// The bytes a `BytesMut` holds, in order.
pub uninterp spec fn bytes_mut_contents(b: BytesMut) -> Seq<u8>;

/// `BytesMut::extend_from_slice`: appends the bytes of `extend`.
///
/// The source panics when the new capacity overflows `usize`; the
/// `requires` keeps the total length within `usize`. Running out of memory is
/// not covered.
#[verifier::external_body]
fn bytes_mut_extend(b: &mut BytesMut, extend: &[u8])
    requires
        bytes_mut_contents(*old(b)).len() + extend@.len() <= usize::MAX,
    ensures
        bytes_mut_contents(*final(b)) == bytes_mut_contents(*old(b)) + extend@,
{
    b.extend_from_slice(extend)
}

/// `BytesMut::len`: the number of bytes held.
#[verifier::external_body]
fn bytes_mut_len(b: &BytesMut) -> (n: usize)
    ensures
        n == bytes_mut_contents(*b).len(),
{
    b.len()
}

/// `BytesMut::split_to`: removes the first `at` bytes and returns them.
///
/// The source panics when `at` exceeds the length.
#[verifier::external_body]
fn bytes_mut_split_to(b: &mut BytesMut, at: usize) -> (front: BytesMut)
    requires
        at <= bytes_mut_contents(*old(b)).len(),
    ensures
        bytes_mut_contents(front) == bytes_mut_contents(*old(b)).take(at as int),
        bytes_mut_contents(*final(b)) == bytes_mut_contents(*old(b)).skip(at as int),
{
    b.split_to(at)
}

/// The bytes of a `BytesMut`, read through its `Deref` to `[u8]`, copied into a `Vec`.
#[verifier::external_body]
fn bytes_mut_to_vec(b: &BytesMut) -> (v: Vec<u8>)
    ensures
        v@ == bytes_mut_contents(*b),
{
    b.to_vec()
}

/// Most data bytes sent in one TX packet.
pub const TX_CHUNK_SIZE: usize = 255;

/// `s` cut into consecutive pieces of `TX_CHUNK_SIZE` bytes, the last one shorter when
/// the length is not a multiple of it.
pub open spec fn tx_chunks(s: Seq<u8>) -> Seq<Seq<u8>>
    decreases s.len(),
{
    if s.len() == 0 {
        seq![]
    } else {
        let k = if s.len() < TX_CHUNK_SIZE {
            s.len() as int
        } else {
            TX_CHUNK_SIZE as int
        };
        seq![s.take(k)] + tx_chunks(s.skip(k))
    }
}

/// The concatenation of the pieces of `cs`.
pub open spec fn flatten(cs: Seq<Seq<u8>>) -> Seq<u8>
    decreases cs.len(),
{
    if cs.len() == 0 {
        seq![]
    } else {
        cs[0] + flatten(cs.drop_first())
    }
}

/// Appends `data` to the accumulator, then drains it completely in pieces of at
/// most `TX_CHUNK_SIZE` bytes, in order: the data of the TX packets to send.
pub fn drain_into_chunks(acc: &mut BytesMut, data: &[u8]) -> (chunks: Vec<Vec<u8>>)
    requires
        bytes_mut_contents(*old(acc)).len() + data@.len() <= usize::MAX,
    ensures
        bytes_mut_contents(*final(acc)) == Seq::<u8>::empty(),
        chunks@.map_values(|c: Vec<u8>| c@) == tx_chunks(bytes_mut_contents(*old(acc)) + data@),
{
    bytes_mut_extend(acc, data);
    let ghost all = bytes_mut_contents(*acc);
    let mut chunks: Vec<Vec<u8>> = Vec::new();
    let mut remaining = bytes_mut_len(acc);
    while remaining > 0
        invariant
            remaining == bytes_mut_contents(*acc).len(),
            chunks@.map_values(|c: Vec<u8>| c@) + tx_chunks(bytes_mut_contents(*acc)) == tx_chunks(
                all,
            ),
        decreases remaining,
    {
        let ghost rest = bytes_mut_contents(*acc);
        let chunk_size = if remaining < TX_CHUNK_SIZE {
            remaining
        } else {
            TX_CHUNK_SIZE
        };
        let chunk = bytes_mut_split_to(acc, chunk_size);
        let piece = bytes_mut_to_vec(&chunk);
        let ghost before = chunks@.map_values(|c: Vec<u8>| c@);
        chunks.push(piece);
        proof {
            assert(tx_chunks(rest) == seq![rest.take(chunk_size as int)] + tx_chunks(
                rest.skip(chunk_size as int),
            ));
            assert(chunks@.map_values(|c: Vec<u8>| c@) =~= before.push(piece@));
            assert(before.push(piece@) + tx_chunks(bytes_mut_contents(*acc)) =~= before
                + tx_chunks(rest));
        }
        remaining = bytes_mut_len(acc);
    }
    assert(tx_chunks(bytes_mut_contents(*acc)) =~= Seq::<Seq<u8>>::empty());
    assert(chunks@.map_values(|c: Vec<u8>| c@) + Seq::<Seq<u8>>::empty() =~= chunks@.map_values(
        |c: Vec<u8>| c@,
    ));
    chunks
}

/// The pieces are the data, in order: none is empty, none is longer than
/// `TX_CHUNK_SIZE`, and only the last one may be shorter.
pub proof fn lemma_tx_chunks_partition(s: Seq<u8>)
    ensures
        flatten(tx_chunks(s)) == s,
        forall|i: int|
            0 <= i < tx_chunks(s).len() ==> 0 < #[trigger] tx_chunks(s)[i].len() <= TX_CHUNK_SIZE,
        forall|i: int|
            0 <= i < tx_chunks(s).len() - 1 ==> #[trigger] tx_chunks(s)[i].len() == TX_CHUNK_SIZE,
    decreases s.len(),
{
    if s.len() > 0 {
        let k = if s.len() < TX_CHUNK_SIZE {
            s.len() as int
        } else {
            TX_CHUNK_SIZE as int
        };
        let rest = s.skip(k);
        lemma_tx_chunks_partition(rest);
        let cs = tx_chunks(s);
        assert(cs == seq![s.take(k)] + tx_chunks(rest));
        assert(cs.drop_first() =~= tx_chunks(rest));
        assert(s.take(k) + rest =~= s);
        assert forall|i: int| 0 < i < cs.len() implies cs[i] == tx_chunks(rest)[i - 1] by {}
        if rest.len() > 0 {
            assert(tx_chunks(rest).len() > 0);
        } else {
            assert(tx_chunks(rest) =~= Seq::<Seq<u8>>::empty());
        }
    } else {
        assert(tx_chunks(s) =~= Seq::<Seq<u8>>::empty());
    }
}

/// The CRC check of a received packet passed: only such data is forwarded.
pub fn crc_ok(rx: &RxDataPacket) -> (ok: bool)
    ensures
        ok == (rx.crc_status == 1),
{
    rx.crc_status == 1
}

/// What a forwarding task does with a received data packet.
#[derive(Debug, Clone, Copy, PartialEq, Eq, Structural)]
pub enum RxDisposition {
    /// Its CRC check passed and it holds data: forward the data.
    Forward,
    /// Its CRC check failed: drop it, with a warning.
    DropCrcError,
    /// Its CRC check passed but it holds no data: nothing to forward.
    Empty,
}

/// Counters kept by a task that forwards received data.
#[derive(Debug, Clone, Copy, PartialEq, Eq, Structural)]
pub struct RxForwardStats {
    /// Data packets received.
    pub packet_count: u64,
    /// Data packets whose CRC check failed.
    pub error_count: u64,
    /// Data bytes forwarded.
    pub total_bytes: u64,
}

/// What [`RxForwardStats::record`] decides for a received packet.
pub open spec fn rx_disposition(rx: RxDataPacket) -> RxDisposition {
    if rx.crc_status == 1 && rx.data@.len() > 0 {
        RxDisposition::Forward
    } else if rx.crc_status != 1 {
        RxDisposition::DropCrcError
    } else {
        RxDisposition::Empty
    }
}

/// A received packet is forwarded exactly when its CRC check passed and it
/// holds at least one byte; it is dropped as a CRC error exactly when the check
/// failed; otherwise (CRC good, no data) there is nothing to forward.
pub proof fn lemma_rx_disposition(rx: RxDataPacket)
    ensures
        (rx_disposition(rx) == RxDisposition::Forward) <==> (rx.crc_status == 1 && rx.data@.len()
            >= 1),
        (rx_disposition(rx) == RxDisposition::DropCrcError) <==> (rx.crc_status != 1),
        (rx_disposition(rx) == RxDisposition::Empty) <==> (rx.crc_status == 1 && rx.data@.len()
            == 0),
{
}

impl RxForwardStats {
    /// All counters at zero.
    pub fn new() -> (s: RxForwardStats)
        ensures
            s == (RxForwardStats { packet_count: 0, error_count: 0, total_bytes: 0 }),
    {
        RxForwardStats { packet_count: 0, error_count: 0, total_bytes: 0 }
    }

    /// Counts a received data packet and decides what to do with it.
    ///
    /// The counters wrap around at `u64::MAX`.
    pub fn record(&mut self, rx: &RxDataPacket) -> (d: RxDisposition)
        ensures
            d == rx_disposition(*rx),
            rx.crc_status == 1 && rx.data@.len() >= 1 ==> d == RxDisposition::Forward,
            rx.crc_status != 1 ==> d == RxDisposition::DropCrcError,
            rx.crc_status == 1 && rx.data@.len() == 0 ==> d == RxDisposition::Empty,
            final(self).packet_count == old(self).packet_count.wrapping_add(1),
            final(self).error_count == if rx.crc_status != 1 {
                old(self).error_count.wrapping_add(1)
            } else {
                old(self).error_count
            },
            final(self).total_bytes == if d == RxDisposition::Forward {
                old(self).total_bytes.wrapping_add(rx.data@.len() as u64)
            } else {
                old(self).total_bytes
            },
    {
        self.packet_count = self.packet_count.wrapping_add(1);
        if rx.crc_status != 1 {
            self.error_count = self.error_count.wrapping_add(1);
        }
        if rx.crc_status == 1 && rx.data.len() > 0 {
            self.total_bytes = self.total_bytes.wrapping_add(rx.data.len() as u64);
            RxDisposition::Forward
        } else if rx.crc_status != 1 {
            RxDisposition::DropCrcError
        } else {
            RxDisposition::Empty
        }
    }
}

/// Attempts at opening a serial port before giving up.
pub const MAX_RETRY_ATTEMPTS: u32 = 5;

/// After the `attempts`-th failed attempt at opening a port, whether to give up.
pub fn should_give_up(attempts: u32) -> (give_up: bool)
    ensures
        give_up == (attempts >= MAX_RETRY_ATTEMPTS),
{
    attempts >= MAX_RETRY_ATTEMPTS
}

/// The packet is a node-information reply that reports the working mode `mode`:
/// the confirmation a node is waited for after it has been configured.
pub fn confirms_working_mode(packet: &DecodedPacket, mode: NodeWorkingMode) -> (ok: bool)
    ensures
        ok == (packet@ matches PacketView::RetNodeInfo(info) && info.node_working_mode == mode),
{
    match packet {
        DecodedPacket::RetNodeInfo(info) => info.node_working_mode == mode,
        _ => false,
    }
}

/// The bytes of `REGISTER`, the request of a client that wants received data.
pub open spec fn register_request() -> Seq<u8> {
    seq![0x52, 0x45, 0x47, 0x49, 0x53, 0x54, 0x45, 0x52]
}

/// The bytes of `REGISTERED`, the reply to a registration request.
pub open spec fn register_reply() -> Seq<u8> {
    seq![0x52, 0x45, 0x47, 0x49, 0x53, 0x54, 0x45, 0x52, 0x45, 0x44]
}

/// The datagram starts with `REGISTER`.
pub fn is_register_request(datagram: &[u8]) -> (yes: bool)
    ensures
        yes == (datagram@.len() >= 8 && datagram@.take(8) == register_request()),
{
    if datagram.len() < 8 {
        return false;
    }
    let expected: [u8; 8] = [0x52, 0x45, 0x47, 0x49, 0x53, 0x54, 0x45, 0x52];
    assert(expected@ =~= register_request());
    let mut i: usize = 0;
    while i < 8
        invariant
            i <= 8,
            datagram@.len() >= 8,
            expected@ == register_request(),
            forall|j: int| 0 <= j < i ==> datagram@[j] == expected@[j],
        decreases 8 - i,
    {
        if datagram[i] != expected[i] {
            assert(datagram@.take(8)[i as int] != register_request()[i as int]);
            return false;
        }
        i = i + 1;
    }
    assert(datagram@.take(8) =~= register_request());
    true
}

/// The reply sent to a client that registered.
pub fn registration_reply() -> (reply: Vec<u8>)
    ensures
        reply@ == register_reply(),
{
    let reply: Vec<u8> = vec![0x52, 0x45, 0x47, 0x49, 0x53, 0x54, 0x45, 0x52, 0x45, 0x44];
    assert(reply@ =~= register_reply());
    reply
}

} // verus!
