//! The two transforms as functions on sequences of bytes.

use vstd::prelude::*;

verus! {

/// A reserved run starts at position `i` of `s`: two zero bytes and then a
/// byte of value three or less, all three inside `s`.
pub open spec fn reserved_at(s: Seq<u8>, i: int) -> bool {
    &&& 0 <= i
    &&& i + 2 < s.len()
    &&& s[i] == 0
    &&& s[i + 1] == 0
    &&& s[i + 2] <= 3
}

/// An escape starts at position `i` of `s`: two zero bytes and then the
/// escape byte, all three inside `s`.
pub open spec fn escape_at(s: Seq<u8>, i: int) -> bool {
    &&& 0 <= i
    &&& i + 2 < s.len()
    &&& s[i] == 0
    &&& s[i + 1] == 0
    &&& s[i + 2] == 3
}

/// A start code prefix stands at position `i` of `s`: two zero bytes and then
/// a byte of value two or less, all three inside `s`.
pub open spec fn start_code_at(s: Seq<u8>, i: int) -> bool {
    &&& 0 <= i
    &&& i + 2 < s.len()
    &&& s[i] == 0
    &&& s[i + 1] == 0
    &&& s[i + 2] <= 2
}

/// Two zero bytes stand side by side at position `i` of `s`.
pub open spec fn zero_pair_at(s: Seq<u8>, i: int) -> bool {
    &&& 0 <= i
    &&& i + 1 < s.len()
    &&& s[i] == 0
    &&& s[i + 1] == 0
}

/// The payload `s` with its reserved runs escaped.
///
/// Where a reserved run starts, its two zero bytes are followed by an
/// inserted escape byte, and the third byte of the run is looked at again as
/// the possible start of a further run. Every other byte stays as it is.
pub open spec fn encoded(s: Seq<u8>) -> Seq<u8>
    decreases s.len(),
{
    if s.len() == 0 {
        Seq::empty()
    } else if reserved_at(s, 0) {
        seq![0u8, 0u8, 3u8] + encoded(s.skip(2))
    } else {
        seq![s[0]] + encoded(s.skip(1))
    }
}

/// The byte stream `s` with its escapes taken out.
///
/// Where an escape starts, its two zero bytes stay and the escape byte is
/// dropped. Every other byte stays as it is.
pub open spec fn decoded(s: Seq<u8>) -> Seq<u8>
    decreases s.len(),
{
    if s.len() == 0 {
        Seq::empty()
    } else if escape_at(s, 0) {
        seq![0u8, 0u8] + decoded(s.skip(3))
    } else {
        seq![s[0]] + decoded(s.skip(1))
    }
}

} // verus!
