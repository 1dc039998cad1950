//! What a committed payload holds: a mempool batch of framed transactions.
//! Each frame may start with a nine-byte header (a flag byte and a
//! big-endian counter) that benchmarking clients put in front.
use crate::codec::{decode_all, Codec};
use crate::types::{Transaction, TransactionModel};
use vstd::prelude::*;

verus! {

/// The length of the header that benchmarking clients put in front of a
/// transaction.
pub const FRAME_HEADER_LEN: usize = 9;

/// The transactions of a mempool batch message, or `None` where the bytes are
/// not a batch.
pub uninterp spec fn bincode_batch_of(bytes: Seq<u8>) -> Option<Seq<Seq<u8>>>;

/// Relies on `bincode::deserialize` (default configuration: little-endian,
/// fixed-width integers). A mempool message is `Batch(Vec<Vec<u8>>)` or
/// `BatchRequest(..)`; bincode writes a two-variant enum as it writes a
/// `Result`, a `u32` variant index and then the fields, so the `Ok` variant
/// reads a batch. The result depends on the bytes alone.
#[verifier::external_body]
fn decode_batch_message(bytes: &Vec<u8>) -> (r: Option<Vec<Vec<u8>>>)
    ensures
        r.deep_view() == bincode_batch_of(bytes@),
{
    match bincode::deserialize::<Result<Vec<Vec<u8>>, ()>>(bytes.as_slice()) {
        Ok(Ok(transactions)) => Some(transactions),
        Ok(Err(())) => None,
        Err(_) => None,
    }
}

/// The transaction bytes of a frame: with the header removed where clients
/// benchmark, `None` where the frame is shorter than the header.
pub open spec fn frame_payload(frame: Seq<u8>, benchmark: bool) -> Option<Seq<u8>> {
    if benchmark {
        if frame.len() >= FRAME_HEADER_LEN {
            Some(frame.skip(FRAME_HEADER_LEN as int))
        } else {
            None
        }
    } else {
        Some(frame)
    }
}

/// The transaction that a frame carries, if it decodes.
pub open spec fn frame_transaction(frame: Seq<u8>, benchmark: bool) -> Option<TransactionModel> {
    match frame_payload(frame, benchmark) {
        Some(p) => decode_all::<Transaction>(p),
        None => None,
    }
}

/// The transactions that the frames carry, in order; frames that do not
/// decode are skipped.
pub open spec fn transactions_in(frames: Seq<Seq<u8>>, benchmark: bool) -> Seq<TransactionModel>
    decreases frames.len(),
{
    if frames.len() == 0 {
        Seq::empty()
    } else {
        let before = transactions_in(frames.drop_last(), benchmark);
        match frame_transaction(frames.last(), benchmark) {
            Some(t) => before.push(t),
            None => before,
        }
    }
}

/// Decodes the transaction that a frame carries.
pub fn frame_to_transaction(frame: &Vec<u8>, benchmark: bool) -> (r: Option<Transaction>)
    ensures
        crate::codec::opt_model(r) == frame_transaction(frame@, benchmark),
{
    let start: usize = if benchmark {
        FRAME_HEADER_LEN
    } else {
        0
    };
    if frame.len() < start {
        return None;
    }
    proof {
        Transaction::lemma_dec_bounds(frame@.skip(start as int));
        assert(frame@.skip(0) =~= frame@);
    }
    match Transaction::read(frame, start) {
        Some((t, p)) => if p == frame.len() {
            Some(t)
        } else {
            None
        },
        None => None,
    }
}

proof fn lemma_frames_view(frames: &Vec<Vec<u8>>, i: int)
    requires
        0 <= i < frames@.len(),
    ensures
        frames.deep_view().len() == frames@.len(),
        frames.deep_view()[i] == frames@[i]@,
{
    assert(frames.deep_view()[i] =~= frames@[i]@);
}

/// The transactions that a batch's frames carry, in order; frames that do
/// not decode are skipped.
pub fn transactions_of_batch(frames: &Vec<Vec<u8>>, benchmark: bool) -> (r: Vec<Transaction>)
    ensures
        r.model() == transactions_in(frames.deep_view(), benchmark),
{
    let ghost fs = frames.deep_view();
    let mut out: Vec<Transaction> = Vec::new();
    let mut i: usize = 0;
    while i < frames.len()
        invariant
            i <= frames.len(),
            fs == frames.deep_view(),
            out.model() == transactions_in(fs.take(i as int), benchmark),
        decreases frames.len() - i,
    {
        proof {
            lemma_frames_view(frames, i as int);
            assert(fs.take(i + 1).drop_last() =~= fs.take(i as int));
            assert(fs.take(i + 1).last() == frames@[i as int]@);
        }
        let ghost before = out.model();
        let decoded = frame_to_transaction(&frames[i], benchmark);
        match decoded {
            Some(t) => {
                out.push(t);
                assert(out.model() =~= before.push(t.model()));
            },
            None => {},
        }
        i = i + 1;
    }
    proof {
        if frames.len() > 0 {
            lemma_frames_view(frames, 0);
        } else {
            assert(frames.deep_view().len() == 0);
        }
        assert(fs.take(frames.len() as int) =~= fs);
    }
    out
}

/// The transactions of a committed payload: the frames of a mempool batch,
/// decoded in order; nothing for a message that is not a batch.
pub fn decode_batch(message: &Vec<u8>, benchmark: bool) -> (r: Vec<Transaction>)
    ensures
        r.model() == match bincode_batch_of(message@) {
            Some(frames) => transactions_in(frames, benchmark),
            None => Seq::empty(),
        },
{
    match decode_batch_message(message) {
        Some(frames) => transactions_of_batch(&frames, benchmark),
        None => {
            let out: Vec<Transaction> = Vec::new();
            assert(out.model() =~= Seq::<TransactionModel>::empty());
            out
        },
    }
}

} // verus!
