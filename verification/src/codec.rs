//! The executable transforms.

use crate::laws::lemma_encoded_has_no_start_code;
use crate::model::{decoded, encoded, start_code_at};
use vstd::prelude::*;

verus! {

/// Escapes the reserved runs of a payload.
///
/// The payload is read once from left to right. Where two zero bytes are
/// followed, inside the payload, by a byte of value three or less, the two
/// zero bytes are written out with an escape byte behind them, and reading
/// goes on at the third byte of the run. Two zero bytes at the very end of
/// the payload are written out as they are.
///
/// The result is at least as long as the payload, and nowhere in it are two
/// zero bytes followed by a byte of value two or less.
pub fn nalu_encode(data: &[u8]) -> (res: Vec<u8>)
    ensures
        res@ == encoded(data@),
        res@.len() >= data@.len(),
        forall|j: int| !start_code_at(res@, j),
{
    let i_max: usize = data.len();
    let mut res: Vec<u8> = Vec::with_capacity(i_max);
    let mut i: usize = 0;
    assert(data@.skip(0) == data@);
    assert(res@ + encoded(data@) == encoded(data@));
    while i < i_max
        invariant
            i_max == data@.len(),
            i <= i_max,
            encoded(data@) == res@ + encoded(data@.skip(i as int)),
            res@.len() >= i,
        decreases i_max - i,
    {
        let ghost rest = data@.skip(i as int);
        let ghost done = res@;
        if i_max - i > 2 && data[i] == 0 && data[i + 1] == 0 && data[i + 2] < 4 {
            res.push(0);
            res.push(0);
            res.push(3);
            i += 2;
            assert(rest.skip(2) == data@.skip(i as int));
            assert(res@ == done + seq![0u8, 0u8, 3u8]);
        } else {
            res.push(data[i]);
            i += 1;
            assert(rest.skip(1) == data@.skip(i as int));
            assert(res@ == done + seq![rest[0]]);
        }
    }
    assert(res@ + Seq::<u8>::empty() == res@);
    proof {
        lemma_encoded_has_no_start_code(data@);
    }
    res
}

/// Takes the escapes out of a byte stream.
///
/// The stream is read once from left to right. Where two zero bytes are
/// followed, inside the stream, by an escape byte, the two zero bytes are
/// written out and the escape byte is dropped. Every other byte is written
/// out as it is. The result is at most as long as the stream.
pub fn nalu_decode(data: &[u8]) -> (res: Vec<u8>)
    ensures
        res@ == decoded(data@),
        res@.len() <= data@.len(),
{
    let i_max: usize = data.len();
    let mut res: Vec<u8> = Vec::with_capacity(i_max);
    let mut i: usize = 0;
    assert(data@.skip(0) == data@);
    assert(res@ + decoded(data@) == decoded(data@));
    while i < i_max
        invariant
            i_max == data@.len(),
            i <= i_max,
            decoded(data@) == res@ + decoded(data@.skip(i as int)),
            res@.len() <= i,
        decreases i_max - i,
    {
        let ghost rest = data@.skip(i as int);
        let ghost done = res@;
        if i_max - i > 2 && data[i] == 0 && data[i + 1] == 0 && data[i + 2] == 3 {
            res.push(0);
            res.push(0);
            i += 3;
            assert(rest.skip(3) == data@.skip(i as int));
            assert(res@ == done + seq![0u8, 0u8]);
        } else {
            res.push(data[i]);
            i += 1;
            assert(rest.skip(1) == data@.skip(i as int));
            assert(res@ == done + seq![rest[0]]);
        }
    }
    assert(res@ + Seq::<u8>::empty() == res@);
    res
}

} // verus!
