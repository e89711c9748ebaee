//! What holds of the two transforms together.

use crate::model::{decoded, encoded, escape_at, reserved_at, start_code_at, zero_pair_at};
use vstd::prelude::*;

verus! {

/// Escaping never shortens a payload, and inserts at most one byte for every
/// two bytes of the payload.
pub proof fn lemma_encoded_len(s: Seq<u8>)
    ensures
        s.len() <= encoded(s).len(),
        encoded(s).len() <= s.len() + s.len() / 2,
    decreases s.len(),
{
    if s.len() == 0 {
    } else if reserved_at(s, 0) {
        lemma_encoded_len(s.skip(2));
    } else {
        lemma_encoded_len(s.skip(1));
    }
}

/// Taking escapes out never lengthens a stream, and drops at most one byte
/// of every three.
pub proof fn lemma_decoded_len(s: Seq<u8>)
    ensures
        decoded(s).len() <= s.len(),
        s.len() - s.len() / 3 <= decoded(s).len(),
    decreases s.len(),
{
    if s.len() == 0 {
    } else if escape_at(s, 0) {
        lemma_decoded_len(s.skip(3));
    } else {
        lemma_decoded_len(s.skip(1));
    }
}

/// An escaped payload begins as the payload does: a payload of fewer than
/// three bytes is left as it is, the first two bytes of a longer one stay,
/// and the third stays unless a reserved run starts the payload, in which
/// case the escape byte stands there.
pub proof fn lemma_encoded_head(s: Seq<u8>)
    ensures
        s.len() <= encoded(s).len(),
        s.len() < 3 ==> encoded(s) == s,
        s.len() >= 1 ==> encoded(s)[0] == s[0],
        s.len() >= 2 ==> encoded(s)[1] == s[1],
        s.len() >= 3 ==> encoded(s)[2] == (if reserved_at(s, 0) {
            3u8
        } else {
            s[2]
        }),
    decreases s.len(),
{
    if s.len() == 0 {
        assert(encoded(s) =~= s);
    } else if reserved_at(s, 0) {
        lemma_encoded_len(s);
    } else {
        let rest = s.skip(1);
        lemma_encoded_head(rest);
        if s.len() < 3 {
            assert(encoded(s) =~= s);
        }
    }
}

/// The last byte of a payload is the last byte of the escaped payload: no
/// escape byte is ever put at the very end, so two zero bytes that end a
/// payload are not followed by one.
pub proof fn lemma_encoded_last(s: Seq<u8>)
    requires
        s.len() > 0,
    ensures
        encoded(s).len() > 0,
        encoded(s).last() == s.last(),
    decreases s.len(),
{
    if reserved_at(s, 0) {
        let rest = s.skip(2);
        lemma_encoded_last(rest);
        assert(rest.last() == s.last());
        assert(encoded(s).last() == encoded(rest).last());
    } else if s.len() > 1 {
        let rest = s.skip(1);
        lemma_encoded_last(rest);
        assert(rest.last() == s.last());
        assert(encoded(s).last() == encoded(rest).last());
    } else {
        assert(encoded(s.skip(1)).len() == 0);
    }
}

/// Taking the escapes out of an escaped payload gives the payload back,
/// whatever bytes it holds.
pub proof fn lemma_decode_encode(s: Seq<u8>)
    ensures
        decoded(encoded(s)) == s,
    decreases s.len(),
{
    let e = encoded(s);
    if s.len() == 0 {
        assert(decoded(e) =~= s);
    } else if reserved_at(s, 0) {
        let rest = s.skip(2);
        lemma_decode_encode(rest);
        assert(escape_at(e, 0));
        assert(e.skip(3) =~= encoded(rest));
        assert(seq![0u8, 0u8] + rest =~= s);
    } else {
        let rest = s.skip(1);
        lemma_decode_encode(rest);
        lemma_encoded_head(s);
        assert(!escape_at(e, 0));
        assert(e.skip(1) =~= encoded(rest));
        assert(seq![s[0]] + rest =~= s);
    }
}

/// A payload in which no reserved run starts is left as it is by escaping.
pub proof fn lemma_encoded_without_reserved_run(s: Seq<u8>)
    requires
        forall|i: int| !reserved_at(s, i),
    ensures
        encoded(s) == s,
    decreases s.len(),
{
    if s.len() == 0 {
        assert(encoded(s) =~= s);
    } else {
        let rest = s.skip(1);
        assert(!reserved_at(s, 0));
        assert forall|i: int| !reserved_at(rest, i) by {
            assert(!reserved_at(s, i + 1));
        }
        lemma_encoded_without_reserved_run(rest);
        assert(seq![s[0]] + rest =~= s);
    }
}

/// A stream in which no escape starts is left as it is when escapes are
/// taken out.
pub proof fn lemma_decoded_without_escape(s: Seq<u8>)
    requires
        forall|i: int| !escape_at(s, i),
    ensures
        decoded(s) == s,
    decreases s.len(),
{
    if s.len() == 0 {
        assert(decoded(s) =~= s);
    } else {
        let rest = s.skip(1);
        assert(!escape_at(s, 0));
        assert forall|i: int| !escape_at(rest, i) by {
            assert(!escape_at(s, i + 1));
        }
        lemma_decoded_without_escape(rest);
        assert(seq![s[0]] + rest =~= s);
    }
}

/// Bytes among which no two zero bytes stand side by side are left as they
/// are by both transforms.
pub proof fn lemma_identity_without_zero_pair(s: Seq<u8>)
    requires
        forall|i: int| !zero_pair_at(s, i),
    ensures
        encoded(s) == s,
        decoded(s) == s,
{
    assert forall|i: int| !reserved_at(s, i) by {
        assert(!zero_pair_at(s, i));
    }
    assert forall|i: int| !escape_at(s, i) by {
        assert(!zero_pair_at(s, i));
    }
    lemma_encoded_without_reserved_run(s);
    lemma_decoded_without_escape(s);
}

/// No start code prefix stands anywhere in an escaped payload: two zero
/// bytes in it are never followed by a byte of value two or less.
pub proof fn lemma_encoded_has_no_start_code(s: Seq<u8>)
    ensures
        forall|j: int| !start_code_at(encoded(s), j),
    decreases s.len(),
{
    let e = encoded(s);
    if s.len() == 0 {
    } else if reserved_at(s, 0) {
        let tail = encoded(s.skip(2));
        lemma_encoded_has_no_start_code(s.skip(2));
        assert forall|j: int| !start_code_at(e, j) by {
            if j >= 3 {
                assert(!start_code_at(tail, j - 3));
            }
        }
    } else {
        let tail = encoded(s.skip(1));
        lemma_encoded_has_no_start_code(s.skip(1));
        lemma_encoded_head(s);
        assert forall|j: int| !start_code_at(e, j) by {
            if j >= 1 {
                assert(!start_code_at(tail, j - 1));
            }
        }
    }
}

} // verus!
