//! Laws of the node framing: what decoding gives back of what encoding wrote,
//! independence from how the byte stream is cut, and the decoder's invariant.
use crate::node_codec::{
    frame_bytes, model_wf, run, step, DecoderModel, FRAME_DELIMITER, MAX_PACKET_SIZE,
};
use crate::node_packets::{
    lemma_payload_roundtrip, packet_type_byte, packet_type_from_byte, parse_payload,
    payload_bytes, view_packet_type, PacketView,
};
use crate::wire::{le_u32_at, lemma_u32_le_roundtrip, u32_le};
use vstd::prelude::*;

verus! {

/// No byte of `s` is a frame delimiter.
pub open spec fn no_delimiter(s: Seq<u8>) -> bool {
    forall|i: int| 0 <= i < s.len() ==> s[i] != FRAME_DELIMITER
}

/// The frame of `p` can be read back: its payload is within the decoder's
/// size limit, and neither its length field nor its payload holds a delimiter
/// byte (the framing has no escaping).
pub open spec fn frame_transparent(p: PacketView) -> bool {
    &&& payload_bytes(p).len() <= MAX_PACKET_SIZE
    &&& no_delimiter(u32_le(payload_bytes(p).len() as u32))
    &&& no_delimiter(payload_bytes(p))
}

/// The frames of the packets of `ps`, one after the other.
pub open spec fn frames(ps: Seq<PacketView>) -> Seq<u8>
    decreases ps.len(),
{
    if ps.len() == 0 {
        seq![]
    } else {
        frames(ps.drop_last()) + frame_bytes(ps.last())
    }
}

/// Decoding a stream cut in two pieces gives what decoding it whole gives:
/// the packets of the first piece, then those of the second, fed to the state
/// the first piece left.
pub proof fn lemma_run_concat(m: DecoderModel, a: Seq<u8>, b: Seq<u8>)
    ensures
        run(m, a + b) == (run(run(m, a).0, b).0, run(m, a).1 + run(run(m, a).0, b).1),
    decreases b.len(),
{
    let m1 = run(m, a).0;
    let o1 = run(m, a).1;
    if b.len() == 0 {
        assert(a + b =~= a);
        assert(o1 + seq![] =~= o1);
    } else {
        lemma_run_concat(m, a, b.drop_last());
        assert((a + b).drop_last() =~= a + b.drop_last());
        assert((a + b).last() == b.last());
        let mid = run(m1, b.drop_last());
        let (m2, o) = step(mid.0, b.last());
        match o {
            Some(p) => {
                assert((o1 + mid.1).push(p) =~= o1 + mid.1.push(p));
            },
            None => {},
        }
    }
}

/// Every state that a step leaves is a state a decoder can be in.
pub proof fn lemma_step_keeps_wf(m: DecoderModel, b: u8)
    requires
        model_wf(m),
    ensures
        model_wf(step(m, b).0),
{
    match m {
        DecoderModel::ReadLength { ptype, len_bytes } => {
            if b != FRAME_DELIMITER {
                let lb = len_bytes.push(b);
                assert(lb.len() <= 4);
            }
        },
        _ => {},
    }
}

/// Every state that a byte stream leaves is a state a decoder can be in.
pub proof fn lemma_run_keeps_wf(m: DecoderModel, bytes: Seq<u8>)
    requires
        model_wf(m),
    ensures
        model_wf(run(m, bytes).0),
    decreases bytes.len(),
{
    if bytes.len() > 0 {
        lemma_run_keeps_wf(m, bytes.drop_last());
        lemma_step_keeps_wf(run(m, bytes.drop_last()).0, bytes.last());
    }
}

proof fn lemma_run_one(m: DecoderModel, b: u8)
    ensures
        run(m, seq![b]).0 == step(m, b).0,
        run(m, seq![b]).1 == (match step(m, b).1 {
            Some(p) => seq![p],
            None => Seq::<PacketView>::empty(),
        }),
{
    assert(run(m, Seq::<u8>::empty()) == (m, Seq::<PacketView>::empty()));
    assert(seq![b].drop_last() =~= Seq::<u8>::empty());
    assert(seq![b].last() == b);
    match step(m, b).1 {
        Some(p) => {
            assert(Seq::<PacketView>::empty().push(p) =~= seq![p]);
        },
        None => {},
    }
}

proof fn lemma_run_payload(
    t: crate::node_packets::PacketType,
    length: nat,
    pre: Seq<u8>,
    s: Seq<u8>,
)
    requires
        no_delimiter(s),
        pre.len() < length,
        pre.len() + s.len() <= length,
    ensures
        run(DecoderModel::ReadData { ptype: t, length, payload: pre }, s).1 == Seq::<
            PacketView,
        >::empty(),
        run(DecoderModel::ReadData { ptype: t, length, payload: pre }, s).0 == (if pre.len()
            + s.len() == length {
            DecoderModel::WaitEnd { ptype: t, payload: pre + s }
        } else {
            DecoderModel::ReadData { ptype: t, length, payload: pre + s }
        }),
    decreases s.len(),
{
    if s.len() == 0 {
        assert(pre + s =~= pre);
    } else {
        let sd = s.drop_last();
        assert forall|i: int| 0 <= i < sd.len() implies sd[i] != FRAME_DELIMITER by {
            assert(sd[i] == s[i]);
        }
        lemma_run_payload(t, length, pre, sd);
        assert(s.last() == s[s.len() - 1]);
        assert((pre + sd).push(s.last()) =~= pre + s);
    }
}

proof fn lemma_run_length_bytes(t: crate::node_packets::PacketType, lb: Seq<u8>)
    requires
        lb.len() == 4,
        no_delimiter(lb),
    ensures
        run(DecoderModel::ReadLength { ptype: t, len_bytes: seq![] }, lb).1 == Seq::<
            PacketView,
        >::empty(),
        run(DecoderModel::ReadLength { ptype: t, len_bytes: seq![] }, lb).0 == step(
            DecoderModel::ReadLength { ptype: t, len_bytes: lb.take(3) },
            lb[3],
        ).0,
{
    let m0 = DecoderModel::ReadLength { ptype: t, len_bytes: seq![] };
    assert(run(m0, Seq::<u8>::empty()) == (m0, Seq::<PacketView>::empty()));
    assert(lb[0] != FRAME_DELIMITER && lb[1] != FRAME_DELIMITER && lb[2] != FRAME_DELIMITER);
    assert(lb.take(1).drop_last() =~= Seq::<u8>::empty());
    assert(lb.take(2).drop_last() =~= lb.take(1));
    assert(lb.take(3).drop_last() =~= lb.take(2));
    assert(lb.drop_last() =~= lb.take(3));
    assert(seq![].push(lb[0]) =~= lb.take(1));
    assert(lb.take(1).push(lb[1]) =~= lb.take(2));
    assert(lb.take(2).push(lb[2]) =~= lb.take(3));
    assert(run(m0, lb.take(1)) == (
        DecoderModel::ReadLength { ptype: t, len_bytes: lb.take(1) },
        Seq::<PacketView>::empty(),
    ));
    assert(run(m0, lb.take(2)) == (
        DecoderModel::ReadLength { ptype: t, len_bytes: lb.take(2) },
        Seq::<PacketView>::empty(),
    ));
    assert(run(m0, lb.take(3)) == (
        DecoderModel::ReadLength { ptype: t, len_bytes: lb.take(3) },
        Seq::<PacketView>::empty(),
    ));
}

#[verifier::spinoff_prover]
#[verifier::rlimit(40)]
proof fn lemma_frame_body(p: PacketView)
    requires
        frame_transparent(p),
    ensures
        run(
            DecoderModel::ReadLength { ptype: view_packet_type(p), len_bytes: seq![] },
            u32_le(payload_bytes(p).len() as u32) + payload_bytes(p) + seq![FRAME_DELIMITER],
        ) == (DecoderModel::WaitStart, seq![p]),
{
    let t = view_packet_type(p);
    let payload = payload_bytes(p);
    let n = payload.len() as u32;
    let lb = u32_le(n);
    let tail = seq![FRAME_DELIMITER];
    lemma_u32_le_roundtrip(n);
    assert(n as nat == payload.len());
    lemma_payload_roundtrip(p);
    let m_len = DecoderModel::ReadLength { ptype: t, len_bytes: seq![] };

    // the length field
    lemma_run_length_bytes(t, lb);
    assert(lb.take(3).push(lb[3]) =~= lb);
    let m_data = run(m_len, lb).0;

    // the payload
    lemma_run_concat(m_len, lb, payload);
    if payload.len() == 0 {
        assert(m_data == DecoderModel::WaitEnd { ptype: t, payload: seq![] });
        assert(payload =~= Seq::<u8>::empty());
        assert(run(m_data, payload) == (m_data, Seq::<PacketView>::empty()));
    } else {
        assert(m_data == DecoderModel::ReadData { ptype: t, length: n as nat, payload: seq![] });
        lemma_run_payload(t, n as nat, seq![], payload);
        assert(Seq::<u8>::empty() + payload =~= payload);
    }
    let m_end = DecoderModel::WaitEnd { ptype: t, payload };
    assert(Seq::<PacketView>::empty() + Seq::<PacketView>::empty() =~= Seq::<
        PacketView,
    >::empty());
    assert(run(m_len, lb + payload) == (m_end, Seq::<PacketView>::empty()));

    // the closing delimiter
    lemma_run_concat(m_len, lb + payload, tail);
    lemma_run_one(m_end, FRAME_DELIMITER);
    assert(Seq::<PacketView>::empty() + seq![p] =~= seq![p]);
}

/// From any state but one that waits for a closing delimiter, the frame of a
/// packet that can be read back decodes to that packet, and leaves the decoder
/// waiting for the next frame.
///
/// The frame's opening delimiter abandons any partial frame, so a decoder
/// resynchronises on every well-formed frame.
#[verifier::spinoff_prover]
pub proof fn lemma_frame_roundtrip(m: DecoderModel, p: PacketView)
    requires
        model_wf(m),
        !(m is WaitEnd),
        frame_transparent(p),
    ensures
        run(m, frame_bytes(p)) == (DecoderModel::WaitStart, seq![p]),
{
    let t = view_packet_type(p);
    let tb = packet_type_byte(t);
    let payload = payload_bytes(p);
    let body = u32_le(payload.len() as u32) + payload + seq![FRAME_DELIMITER];
    assert(packet_type_from_byte(tb) == Some(t));
    let head = seq![FRAME_DELIMITER, tb];
    assert(frame_bytes(p) =~= head + body);

    assert(head =~= seq![FRAME_DELIMITER] + seq![tb]);
    lemma_run_concat(m, seq![FRAME_DELIMITER], seq![tb]);
    lemma_run_one(m, FRAME_DELIMITER);
    lemma_run_one(DecoderModel::ReadType, tb);
    let m_len = DecoderModel::ReadLength { ptype: t, len_bytes: seq![] };
    assert(run(m, head).0 == m_len);
    assert(run(m, head).1 =~= Seq::<PacketView>::empty());

    lemma_run_concat(m, head, body);
    lemma_frame_body(p);
    assert(Seq::<PacketView>::empty() + seq![p] =~= seq![p]);
}

/// The frames of a sequence of packets that can all be read back decode, from
/// a decoder waiting for a frame, to exactly that sequence of packets.
pub proof fn lemma_frames_roundtrip(ps: Seq<PacketView>)
    requires
        forall|i: int| 0 <= i < ps.len() ==> frame_transparent(#[trigger] ps[i]),
    ensures
        run(DecoderModel::WaitStart, frames(ps)) == (DecoderModel::WaitStart, ps),
    decreases ps.len(),
{
    if ps.len() == 0 {
        assert(ps =~= Seq::<PacketView>::empty());
    } else {
        let init = ps.drop_last();
        assert forall|i: int| 0 <= i < init.len() implies frame_transparent(#[trigger] init[i]) by {
            assert(init[i] == ps[i]);
        }
        lemma_frames_roundtrip(init);
        lemma_run_concat(DecoderModel::WaitStart, frames(init), frame_bytes(ps.last()));
        assert(frame_transparent(ps[ps.len() - 1]));
        lemma_frame_roundtrip(DecoderModel::WaitStart, ps.last());
        assert(init + seq![ps.last()] =~= ps);
    }
}

} // verus!
