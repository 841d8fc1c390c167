//! The wire form of a batch whose transactions travel as byte strings: the
//! number of transactions as 8 little-endian bytes, then each transaction as
//! its length (8 little-endian bytes) followed by its bytes.
use crate::msg::Batch;
use vstd::bytes::{
    lemma_auto_spec_u64_to_from_le_bytes, spec_u64_from_le_bytes, spec_u64_to_le_bytes,
    u64_from_le_bytes, u64_to_le_bytes,
};
use vstd::prelude::*;
use vstd::slice::{slice_subrange, slice_to_vec};

verus! {

/// The byte strings of a batch's transactions.
pub open spec fn payload_bytes(b: Batch<Vec<u8>>) -> Seq<Seq<u8>> {
    b.payload@.map_values(|v: Vec<u8>| v@)
}

/// Every transaction's length fits the 8-byte length field.
pub open spec fn encodable(txs: Seq<Seq<u8>>) -> bool {
    &&& txs.len() <= u64::MAX
    &&& forall|i: int| 0 <= i < txs.len() ==> #[trigger] txs[i].len() <= u64::MAX
}

/// One transaction on the wire: its length, then its bytes.
pub open spec fn tx_frame(t: Seq<u8>) -> Seq<u8> {
    spec_u64_to_le_bytes(t.len() as u64) + t
}

/// The transactions on the wire, one after the other.
pub open spec fn frames(txs: Seq<Seq<u8>>) -> Seq<u8>
    decreases txs.len(),
{
    if txs.len() == 0 {
        Seq::empty()
    } else {
        tx_frame(txs[0]) + frames(txs.drop_first())
    }
}

/// The wire form of a batch.
pub open spec fn batch_bytes(txs: Seq<Seq<u8>>) -> Seq<u8> {
    spec_u64_to_le_bytes(txs.len() as u64) + frames(txs)
}

/// `n` transactions read from the front of `s`, which they must use up
/// exactly.
pub open spec fn parse_frames(s: Seq<u8>, n: nat) -> Option<Seq<Seq<u8>>>
    decreases n,
{
    if n == 0 {
        if s.len() == 0 {
            Some(Seq::empty())
        } else {
            None
        }
    } else if s.len() < 8 {
        None
    } else {
        let len = spec_u64_from_le_bytes(s.subrange(0, 8)) as int;
        if s.len() - 8 < len {
            None
        } else {
            match parse_frames(s.subrange(8 + len, s.len() as int), (n - 1) as nat) {
                Some(rest) => Some(seq![s.subrange(8, 8 + len)] + rest),
                None => None,
            }
        }
    }
}

/// The transactions of a batch read from its wire form, if it is one.
pub open spec fn parse_batch(s: Seq<u8>) -> Option<Seq<Seq<u8>>> {
    if s.len() < 8 {
        None
    } else {
        parse_frames(s.subrange(8, s.len() as int), spec_u64_from_le_bytes(s.subrange(0, 8)) as nat)
    }
}

proof fn lemma_parse_frames(txs: Seq<Seq<u8>>)
    requires
        encodable(txs),
    ensures
        parse_frames(frames(txs), txs.len()) == Some(txs),
    decreases txs.len(),
{
    lemma_auto_spec_u64_to_from_le_bytes();
    if txs.len() > 0 {
        let t = txs[0];
        let rest = txs.drop_first();
        assert(encodable(rest)) by {
            assert forall|i: int| 0 <= i < rest.len() implies #[trigger] rest[i].len()
                <= u64::MAX by {
                assert(rest[i] == txs[i + 1]);
            }
        }
        lemma_parse_frames(rest);
        let s = frames(txs);
        let h = spec_u64_to_le_bytes(t.len() as u64);
        assert(t.len() <= u64::MAX) by {
            assert(txs[0].len() <= u64::MAX);
        }
        assert(s == h + t + frames(rest));
        assert(s.subrange(0, 8) =~= h);
        assert(s.subrange(8, 8 + t.len() as int) =~= t);
        assert(s.subrange(8 + t.len() as int, s.len() as int) =~= frames(rest));
        assert(seq![t] + rest =~= txs);
    } else {
        assert(frames(txs) =~= Seq::<u8>::empty());
        assert(txs =~= Seq::<Seq<u8>>::empty());
    }
}

/// Reading a batch back from its wire form gives the same transactions.
pub proof fn batch_round_trip(txs: Seq<Seq<u8>>)
    requires
        encodable(txs),
    ensures
        parse_batch(batch_bytes(txs)) == Some(txs),
{
    lemma_auto_spec_u64_to_from_le_bytes();
    lemma_parse_frames(txs);
    let s = batch_bytes(txs);
    assert(s.subrange(0, 8) =~= spec_u64_to_le_bytes(txs.len() as u64));
    assert(s.subrange(8, s.len() as int) =~= frames(txs));
}

/// Two batches with the same wire form have the same transactions.
pub proof fn batch_bytes_injective(a: Seq<Seq<u8>>, b: Seq<Seq<u8>>)
    requires
        encodable(a),
        encodable(b),
        batch_bytes(a) == batch_bytes(b),
    ensures
        a == b,
{
    batch_round_trip(a);
    batch_round_trip(b);
}

/// Appends `s` to `out`.
fn append(out: &mut Vec<u8>, s: &[u8])
    ensures
        final(out)@ == old(out)@ + s@,
{
    let mut i: usize = 0;
    while i < s.len()
        invariant
            0 <= i <= s@.len(),
            out@ == old(out)@ + s@.take(i as int),
        decreases s@.len() - i,
    {
        out.push(s[i]);
        assert(out@ =~= old(out)@ + s@.take(i + 1));
        i = i + 1;
    }
    assert(s@.take(s@.len() as int) =~= s@);
}

proof fn lemma_frames_push(txs: Seq<Seq<u8>>, t: Seq<u8>)
    ensures
        frames(txs.push(t)) == frames(txs) + tx_frame(t),
    decreases txs.len(),
{
    if txs.len() == 0 {
        assert(txs.push(t).drop_first() =~= Seq::<Seq<u8>>::empty());
        assert(frames(txs.push(t)) =~= tx_frame(t) + frames(Seq::<Seq<u8>>::empty()));
        assert(frames(txs) =~= Seq::<u8>::empty());
        assert(frames(Seq::<Seq<u8>>::empty()) =~= Seq::<u8>::empty());
        assert(frames(txs.push(t)) =~= frames(txs) + tx_frame(t));
    } else {
        assert(txs.push(t).drop_first() =~= txs.drop_first().push(t));
        lemma_frames_push(txs.drop_first(), t);
        assert(txs.push(t)[0] == txs[0]);
        assert(frames(txs.push(t)) =~= tx_frame(txs[0]) + (frames(txs.drop_first()) + tx_frame(t)));
    }
}

/// The wire form of a batch whose transactions are byte strings.
pub fn encode_batch(batch: &Batch<Vec<u8>>) -> (r: Vec<u8>)
    ensures
        r@ == batch_bytes(payload_bytes(*batch)),
{
    let n = batch.payload.len();
    let ghost txs = payload_bytes(*batch);
    let mut out = u64_to_le_bytes(n as u64);
    let mut i: usize = 0;
    while i < n
        invariant
            n == batch.payload@.len(),
            txs == payload_bytes(*batch),
            0 <= i <= n,
            out@ == spec_u64_to_le_bytes(n as u64) + frames(txs.take(i as int)),
        decreases n - i,
    {
        let tx = &batch.payload[i];
        let len = u64_to_le_bytes(tx.len() as u64);
        proof {
            lemma_frames_push(txs.take(i as int), tx@);
            assert(txs.take(i + 1) =~= txs.take(i as int).push(tx@));
        }
        append(&mut out, len.as_slice());
        append(&mut out, tx.as_slice());
        assert(out@ =~= spec_u64_to_le_bytes(n as u64) + frames(txs.take(i + 1)));
        i = i + 1;
    }
    assert(txs.take(n as int) =~= txs);
    out
}

/// `p` followed by what `o` holds, if it holds anything.
pub open spec fn prepend(p: Seq<Seq<u8>>, o: Option<Seq<Seq<u8>>>) -> Option<Seq<Seq<u8>>> {
    match o {
        Some(rest) => Some(p + rest),
        None => None,
    }
}

/// The batch whose wire form `bytes` is, if it is the wire form of one.
pub fn decode_batch(bytes: &Vec<u8>) -> (r: Option<Batch<Vec<u8>>>)
    ensures
        match parse_batch(bytes@) {
            Some(txs) => r matches Some(b) && payload_bytes(b) == txs,
            None => r is None,
        },
{
    let len = bytes.len();
    if len < 8 {
        return None;
    }
    let s = bytes.as_slice();
    let n = u64_from_le_bytes(slice_subrange(s, 0, 8));
    let mut pos: usize = 8;
    let mut out: Vec<Vec<u8>> = Vec::new();
    let mut i: u64 = 0;
    proof {
        assert(out@.map_values(|v: Vec<u8>| v@) =~= Seq::<Seq<u8>>::empty());
        assert(Seq::<Seq<u8>>::empty() + Seq::<Seq<u8>>::empty() =~= Seq::<Seq<u8>>::empty());
        match parse_frames(bytes@.subrange(8, len as int), n as nat) {
            Some(rest) => {
                assert(Seq::<Seq<u8>>::empty() + rest =~= rest);
            },
            None => {},
        }
    }
    while i < n
        invariant
            8 <= pos <= len,
            len == bytes@.len(),
            s@ == bytes@,
            i <= n,
            n == spec_u64_from_le_bytes(bytes@.subrange(0, 8)),
            parse_batch(bytes@) == prepend(
                out@.map_values(|v: Vec<u8>| v@),
                parse_frames(bytes@.subrange(pos as int, len as int), (n - i) as nat),
            ),
        decreases n - i,
    {
        let ghost rest = bytes@.subrange(pos as int, len as int);
        let ghost before = out@.map_values(|v: Vec<u8>| v@);
        if len - pos < 8 {
            return None;
        }
        let tl = u64_from_le_bytes(slice_subrange(s, pos, pos + 8));
        assert(rest.subrange(0, 8) =~= bytes@.subrange(pos as int, pos + 8));
        if ((len - pos - 8) as u64) < tl {
            return None;
        }
        let tl = tl as usize;
        let tx = slice_to_vec(slice_subrange(s, pos + 8, pos + 8 + tl));
        proof {
            assert(rest.subrange(8, 8 + tl) =~= tx@);
            assert(rest.subrange(8 + tl, rest.len() as int) =~= bytes@.subrange(
                pos + 8 + tl,
                len as int,
            ));
        }
        out.push(tx);
        pos = pos + 8 + tl;
        i = i + 1;
        proof {
            let after = out@.map_values(|v: Vec<u8>| v@);
            assert(after =~= before.push(tx@));
            match parse_frames(bytes@.subrange(pos as int, len as int), (n - i) as nat) {
                Some(r2) => {
                    assert(before + (seq![tx@] + r2) =~= after + r2);
                },
                None => {},
            }
        }
    }
    if pos != len {
        return None;
    }
    proof {
        let v = out@.map_values(|v: Vec<u8>| v@);
        assert(bytes@.subrange(pos as int, len as int) =~= Seq::<u8>::empty());
        assert(v + Seq::<Seq<u8>>::empty() =~= v);
    }
    Some(Batch { payload: out })
}

} // verus!
