use vstd::prelude::*;

use crate::codec::le_word_at;
use crate::errors::InteropError;

verus! {

/// One unit of data in a delivered batch: the record's serialized payload,
/// opaque to this layer beyond being the unit of iteration the behavior
/// object consumes.
#[derive(Debug, PartialEq, Eq)]
pub struct Record {
    pub payload: Vec<u8>,
}

impl View for Record {
    type V = Seq<u8>;

    open spec fn view(&self) -> Seq<u8> {
        self.payload@
    }
}

/// The payloads of a sequence of records, in the same order.
pub open spec fn payloads_of(v: Seq<Record>) -> Seq<Seq<u8>> {
    v.map_values(|rec: Record| rec@)
}

/// The payloads framed from position `i` to the end of `b`: each record is a
/// 32-bit little-endian length followed by that many payload bytes, and the
/// records stand in transmission order. `None` when the remainder is
/// truncated.
pub open spec fn decoded_from(b: Seq<u8>, i: int) -> Option<Seq<Seq<u8>>>
    recommends
        0 <= i <= b.len(),
    decreases b.len() - i,
{
    if i < 0 || i >= b.len() {
        Some(Seq::empty())
    } else if b.len() - i < 4 {
        None
    } else if b.len() - i - 4 < le_word_at(b, i) {
        None
    } else {
        match decoded_from(b, i + 4 + le_word_at(b, i)) {
            Some(rest) => Some(seq![b.subrange(i + 4, i + 4 + le_word_at(b, i))] + rest),
            None => None,
        }
    }
}

/// The ordered payload sequence framed by the whole buffer, or `None` when
/// the buffer is malformed.
pub open spec fn decoded_batch(b: Seq<u8>) -> Option<Seq<Seq<u8>>> {
    decoded_from(b, 0)
}

/// A well-framed buffer holds at most one record for every four of its bytes,
/// so never more records than bytes.
pub proof fn lemma_decoded_count(b: Seq<u8>, i: int)
    requires
        0 <= i <= b.len(),
    ensures
        decoded_from(b, i) matches Some(rs) ==> 4 * rs.len() <= b.len() - i,
    decreases b.len() - i,
{
    if i < b.len() && b.len() - i >= 4 && b.len() - i - 4 >= le_word_at(b, i) {
        lemma_decoded_count(b, i + 4 + le_word_at(b, i));
    }
}

/// Decodes a batch buffer into its records, in transmission order, with no
/// deduplication. All or nothing: a truncated or overrunning frame rejects
/// the whole buffer as `MalformedBatch`.
pub fn decode_batch(buffer: &[u8]) -> (r: Result<Vec<Record>, InteropError>)
    ensures
        decoded_batch(buffer@) matches Some(ps) ==> r matches Ok(v) && payloads_of(v@) == ps,
        decoded_batch(buffer@) is None ==> r == Err::<Vec<Record>, InteropError>(
            InteropError::MalformedBatch,
        ),
        r matches Ok(v) ==> 4 * v@.len() <= buffer@.len(),
{
    let ghost b = buffer@;
    let len: usize = buffer.len();
    let mut out: Vec<Record> = Vec::new();
    let mut i: usize = 0;
    proof {
        assert(payloads_of(out@) =~= Seq::<Seq<u8>>::empty());
    }
    while i < len
        invariant
            i <= len,
            len == b.len(),
            b == buffer@,
            match decoded_from(b, i as int) {
                Some(rest) => decoded_batch(b) matches Some(all) && all == payloads_of(out@)
                    + rest,
                None => decoded_batch(b) is None,
            },
        decreases len - i,
    {
        if len - i < 4 {
            return Err(InteropError::MalformedBatch);
        }
        let word: u32 = (buffer[i] as u32) + (buffer[i + 1] as u32) * 0x100 + (buffer[i + 2]
            as u32) * 0x1_0000 + (buffer[i + 3] as u32) * 0x100_0000;
        let n: usize = word as usize;
        assert(n == le_word_at(b, i as int));
        if len - i - 4 < n {
            return Err(InteropError::MalformedBatch);
        }
        let payload_slice: &[u8] = vstd::slice::slice_subrange(buffer, i + 4, i + 4 + n);
        let payload: Vec<u8> = vstd::slice::slice_to_vec(payload_slice);
        let ghost out_before = out@;
        out.push(Record { payload });
        proof {
            assert(payloads_of(out@) =~= payloads_of(out_before).push(payload@));
            let head = b.subrange(i as int + 4, i as int + 4 + n as int);
            assert(payload@ == head);
            if let Some(rest) = decoded_from(b, i as int + 4 + n as int) {
                assert(decoded_from(b, i as int) == Some(seq![head] + rest));
                assert(payloads_of(out_before).push(head) + rest =~= payloads_of(out_before) + (
                seq![head] + rest));
            }
        }
        i = i + 4 + n;
    }
    proof {
        assert(decoded_from(b, i as int) == Some(Seq::<Seq<u8>>::empty()));
        assert(payloads_of(out@) + Seq::<Seq<u8>>::empty() =~= payloads_of(out@));
        lemma_decoded_count(b, 0);
    }
    Ok(out)
}

} // verus!
