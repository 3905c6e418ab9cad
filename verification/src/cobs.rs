//! Consistent Overhead Byte Stuffing: a reversible transform that removes
//! every zero byte from a buffer, so that the buffer can be delimited on the
//! wire by a single zero byte.
//!
//! Encoding walks the input left to right. Each group is the distance to the
//! next zero byte (or to the end of the buffer, or a cap of 254 bytes,
//! whichever comes first), emitted as one length byte equal to distance + 1
//! followed by that many non-zero payload bytes. A group ended by a real zero
//! byte consumes it; a group that hit the cap consumes no zero and is marked
//! by the length byte 255. An input that ends exactly on a zero byte gets an
//! explicit trailing empty group. The caller appends the final zero delimiter
//! itself; it is not part of the encoding.

use vstd::prelude::*;

verus! {

/// Distance from the start of `s` to its first zero byte, or `s.len()` if no
/// byte of `s` is zero.
pub open spec fn dist_to_zero(s: Seq<u8>) -> nat
    decreases s.len(),
{
    if s.len() == 0 {
        0
    } else if s[0] == 0 {
        0
    } else {
        1 + dist_to_zero(s.skip(1))
    }
}

/// `dist_to_zero` points at the first zero byte: everything before it is
/// non-zero, and if it lies inside the sequence it indexes a zero byte.
pub proof fn lemma_dist_to_zero(s: Seq<u8>)
    ensures
        dist_to_zero(s) <= s.len(),
        forall|i: int| 0 <= i < dist_to_zero(s) ==> s[i] != 0,
        dist_to_zero(s) < s.len() ==> s[dist_to_zero(s) as int] == 0,
    decreases s.len(),
{
    if s.len() == 0 || s[0] == 0 {
    } else {
        lemma_dist_to_zero(s.skip(1));
        let d = dist_to_zero(s);
        assert(d == 1 + dist_to_zero(s.skip(1)));
        assert forall|i: int| 0 <= i < d implies s[i] != 0 by {
            if i > 0 {
                assert(s.skip(1)[i - 1] == s[i]);
            }
        }
        if d < s.len() {
            assert(s.skip(1)[d - 1] == s[d as int]);
        }
    }
}

/// A prefix of non-zero bytes bounds `dist_to_zero` from below.
pub proof fn lemma_dist_to_zero_at_least(s: Seq<u8>, k: int)
    requires
        0 <= k <= s.len(),
        forall|i: int| 0 <= i < k ==> s[i] != 0,
    ensures
        dist_to_zero(s) >= k,
    decreases k,
{
    if k > 0 {
        assert(s[0] != 0);
        assert forall|i: int| 0 <= i < k - 1 implies s.skip(1)[i] != 0 by {
            assert(s.skip(1)[i] == s[i + 1]);
        }
        lemma_dist_to_zero_at_least(s.skip(1), k - 1);
    }
}

/// A non-zero prefix ended by a zero byte (or by the end of the sequence)
/// pins `dist_to_zero` exactly.
pub proof fn lemma_dist_to_zero_is(s: Seq<u8>, k: int)
    requires
        0 <= k <= s.len(),
        forall|i: int| 0 <= i < k ==> s[i] != 0,
        k < s.len() ==> s[k] == 0,
    ensures
        dist_to_zero(s) == k,
{
    lemma_dist_to_zero(s);
    lemma_dist_to_zero_at_least(s, k);
    if dist_to_zero(s) > k {
        assert(s[k] != 0);
    }
}

/// The encoding of `s`, group by group.
pub open spec fn cobs_encode(s: Seq<u8>) -> Seq<u8>
    decreases s.len(),
{
    let d = dist_to_zero(s);
    if d < 254 && d < s.len() {
        // a group ended by a real zero byte, which is consumed
        seq![(d + 1) as u8] + s.take(d as int) + cobs_encode(s.skip(d as int + 1))
    } else if s.len() <= 254 {
        // the final group: the rest of the buffer, no zero consumed
        seq![(s.len() + 1) as u8] + s
    } else {
        // a saturated group of 254 payload bytes, marked by length byte 255
        seq![255u8] + s.take(254) + cobs_encode(s.skip(254))
    }
}

/// The decoding of `s`, group by group: read a length byte `l`, copy the next
/// `l - 1` bytes verbatim, and emit one zero byte afterwards unless `l` is 255
/// (a saturated group) or the input is exhausted.
pub open spec fn cobs_decode(s: Seq<u8>) -> Seq<u8>
    decreases s.len(),
{
    if s.len() == 0 {
        Seq::empty()
    } else {
        let l = s[0] as int;
        if l == 0 {
            // a zero length byte cannot occur in a valid encoding; stop
            Seq::empty()
        } else if s.len() <= l {
            // the final (possibly truncated) group: no trailing zero
            s.subrange(1, s.len() as int)
        } else if l < 255 {
            s.subrange(1, l) + seq![0u8] + cobs_decode(s.skip(l))
        } else {
            s.subrange(1, l) + cobs_decode(s.skip(l))
        }
    }
}

/// An encoding is never empty: even the empty buffer encodes to one length
/// byte.
pub proof fn lemma_cobs_encode_len(s: Seq<u8>)
    ensures
        cobs_encode(s).len() >= 1,
{
}

/// Law: the encoded output contains no zero byte, for every input buffer.
pub proof fn lemma_cobs_encode_no_zero(s: Seq<u8>)
    ensures
        forall|i: int| 0 <= i < cobs_encode(s).len() ==> cobs_encode(s)[i] != 0,
    decreases s.len(),
{
    lemma_dist_to_zero(s);
    let d = dist_to_zero(s);
    let e = cobs_encode(s);
    if d < 254 && d < s.len() {
        lemma_cobs_encode_no_zero(s.skip(d as int + 1));
        let tail = cobs_encode(s.skip(d as int + 1));
        assert forall|i: int| 0 <= i < e.len() implies e[i] != 0 by {
            if i == 0 {
                assert(e[0] == (d + 1) as u8);
            } else if i < d + 1 {
                assert(e[i] == s.take(d as int)[i - 1]);
                assert(s.take(d as int)[i - 1] == s[i - 1]);
            } else {
                assert(e[i] == tail[i - (d + 1)]);
            }
        }
    } else if s.len() <= 254 {
        assert forall|i: int| 0 <= i < e.len() implies e[i] != 0 by {
            if i == 0 {
                assert(e[0] == (s.len() + 1) as u8);
            } else {
                assert(e[i] == s[i - 1]);
            }
        }
    } else {
        lemma_cobs_encode_no_zero(s.skip(254));
        let tail = cobs_encode(s.skip(254));
        assert forall|i: int| 0 <= i < e.len() implies e[i] != 0 by {
            if i == 0 {
            } else if i < 255 {
                assert(e[i] == s.take(254)[i - 1]);
                assert(s.take(254)[i - 1] == s[i - 1]);
            } else {
                assert(e[i] == tail[i - 255]);
            }
        }
    }
}

/// Law: decoding inverts encoding, for every buffer, including the empty one,
/// all-zero ones, and buffers longer than 254 bytes.
pub proof fn lemma_cobs_round_trip(s: Seq<u8>)
    ensures
        cobs_decode(cobs_encode(s)) == s,
    decreases s.len(),
{
    lemma_dist_to_zero(s);
    let d = dist_to_zero(s);
    let e = cobs_encode(s);
    if d < 254 && d < s.len() {
        let tail = s.skip(d as int + 1);
        lemma_cobs_round_trip(tail);
        lemma_cobs_encode_len(tail);
        assert(e[0] == (d + 1) as u8);
        assert(e.len() > d + 1);
        assert(e.subrange(1, d as int + 1) =~= s.take(d as int));
        assert(e.skip(d as int + 1) =~= cobs_encode(tail));
        assert(cobs_decode(e) == s.take(d as int) + seq![0u8] + cobs_decode(cobs_encode(tail)));
        assert(s =~= s.take(d as int) + seq![0u8] + tail);
    } else if s.len() <= 254 {
        assert(e[0] == (s.len() + 1) as u8);
        assert(e.len() == s.len() + 1);
        assert(e.subrange(1, e.len() as int) =~= s);
    } else {
        let tail = s.skip(254);
        lemma_cobs_round_trip(tail);
        lemma_cobs_encode_len(tail);
        assert(e[0] == 255u8);
        assert(e.len() > 255);
        assert(e.subrange(1, 255) =~= s.take(254));
        assert(e.skip(255) =~= cobs_encode(tail));
        assert(cobs_decode(e) == s.take(254) + cobs_decode(cobs_encode(tail)));
        assert(s =~= s.take(254) + tail);
    }
}

/// Encode `input` into its byte-stuffed form, containing no zero byte.
pub fn encode(input: &[u8]) -> (out: Vec<u8>)
    ensures
        out@ == cobs_encode(input@),
{
    let n = input.len();
    let mut out: Vec<u8> = Vec::new();
    let mut i: usize = 0;
    proof {
        assert(input@.skip(0) =~= input@);
        assert(Seq::<u8>::empty() + cobs_encode(input@) =~= cobs_encode(input@));
    }
    loop
        invariant_except_break
            n == input@.len(),
            i <= n,
            cobs_encode(input@) == out@ + cobs_encode(input@.skip(i as int)),
        ensures
            out@ == cobs_encode(input@),
        decreases input@.len() - i,
    {
        let remaining = n - i;
        let window = if remaining < 254 { remaining } else { 254 };
        let mut d: usize = 0;
        while d < window
            invariant
                n == input@.len(),
                d <= window <= 254,
                i + window <= n,
                forall|m: int| 0 <= m < d ==> #[trigger] input@[i + m] != 0,
            ensures
                d <= window,
                forall|m: int| 0 <= m < d ==> #[trigger] input@[i + m] != 0,
                d < window ==> input@[i + d] == 0,
            decreases window - d,
        {
            if input[i + d] == 0 {
                break;
            }
            d = d + 1;
        }
        let ghost rem = input@.skip(i as int);
        proof {
            assert forall|m: int| 0 <= m < rem.len() implies rem[m] == input@[i + m] by {}
        }
        let ghost out0 = out@;
        if d < window {
            // a zero byte lies at offset d, within the 254-byte cap
            proof {
                lemma_dist_to_zero_is(rem, d as int);
            }
            out.push((d + 1) as u8);
            let mut m: usize = 0;
            while m < d
                invariant
                    n == input@.len(),
                    m <= d < 254,
                    i + d < n,
                    out@ == out0 + seq![(d + 1) as u8] + input@.subrange(i as int, i + m),
                decreases d - m,
            {
                out.push(input[i + m]);
                proof {
                    assert(out@ =~= out0 + seq![(d + 1) as u8] + input@.subrange(
                        i as int,
                        i + m + 1,
                    ));
                }
                m = m + 1;
            }
            proof {
                assert(input@.subrange(i as int, i + d) =~= rem.take(d as int));
                assert(rem.skip(d as int + 1) =~= input@.skip(i + d + 1));
                assert(cobs_encode(rem) == seq![(d + 1) as u8] + rem.take(d as int) + cobs_encode(
                    rem.skip(d as int + 1),
                ));
                assert(cobs_encode(input@) =~= out@ + cobs_encode(input@.skip(i + d + 1)));
            }
            i = i + d + 1;
        } else if remaining <= 254 {
            // no zero byte remains: emit the rest as the final group
            proof {
                lemma_dist_to_zero_at_least(rem, remaining as int);
                lemma_dist_to_zero(rem);
            }
            out.push((remaining + 1) as u8);
            let mut m: usize = 0;
            while m < remaining
                invariant
                    n == input@.len(),
                    m <= remaining <= 254,
                    i + remaining == n,
                    out@ == out0 + seq![(remaining + 1) as u8] + input@.subrange(i as int, i + m),
                decreases remaining - m,
            {
                out.push(input[i + m]);
                proof {
                    assert(out@ =~= out0 + seq![(remaining + 1) as u8] + input@.subrange(
                        i as int,
                        i + m + 1,
                    ));
                }
                m = m + 1;
            }
            proof {
                assert(input@.subrange(i as int, i + remaining) =~= rem);
                assert(cobs_encode(rem) == seq![(rem.len() + 1) as u8] + rem);
                assert(out@ =~= cobs_encode(input@));
            }
            break;
        } else {
            // 254 non-zero bytes with more input beyond: a saturated group
            proof {
                lemma_dist_to_zero_at_least(rem, 254);
            }
            out.push(255u8);
            let mut m: usize = 0;
            while m < 254
                invariant
                    n == input@.len(),
                    m <= 254,
                    i + 254 < n,
                    out@ == out0 + seq![255u8] + input@.subrange(i as int, i + m),
                decreases 254 - m,
            {
                out.push(input[i + m]);
                proof {
                    assert(out@ =~= out0 + seq![255u8] + input@.subrange(i as int, i + m + 1));
                }
                m = m + 1;
            }
            proof {
                assert(input@.subrange(i as int, i + 254) =~= rem.take(254));
                assert(rem.skip(254) =~= input@.skip(i + 254));
                assert(cobs_encode(rem) == seq![255u8] + rem.take(254) + cobs_encode(
                    rem.skip(254),
                ));
                assert(cobs_encode(input@) =~= out@ + cobs_encode(input@.skip(i + 254)));
            }
            i = i + 254;
        }
    }
    out
}

/// Decode a byte-stuffed buffer, inverting [`encode`]. Total: on input that
/// is not a valid encoding (a zero length byte, or a truncated final group)
/// it returns what was recovered up to that point, as [`cobs_decode`] states.
pub fn decode(input: &[u8]) -> (out: Vec<u8>)
    ensures
        out@ == cobs_decode(input@),
{
    let n = input.len();
    let mut out: Vec<u8> = Vec::new();
    let mut i: usize = 0;
    proof {
        assert(input@.skip(0) =~= input@);
        assert(Seq::<u8>::empty() + cobs_decode(input@) =~= cobs_decode(input@));
    }
    loop
        invariant_except_break
            n == input@.len(),
            i <= n,
            cobs_decode(input@) == out@ + cobs_decode(input@.skip(i as int)),
        ensures
            out@ == cobs_decode(input@),
        decreases input@.len() - i,
    {
        let ghost rem = input@.skip(i as int);
        if i == n {
            break;
        }
        let l = input[i];
        proof {
            assert(rem[0] == input@[i as int]);
        }
        if l == 0 {
            break;
        }
        let li = l as usize;
        let ghost out0 = out@;
        if n - i <= li {
            // the final group: copy the rest, no trailing zero
            let mut m: usize = i + 1;
            while m < n
                invariant
                    n == input@.len(),
                    i + 1 <= m <= n,
                    out@ == out0 + input@.subrange(i + 1, m as int),
                decreases input@.len() - m,
            {
                out.push(input[m]);
                proof {
                    assert(out@ =~= out0 + input@.subrange(i + 1, m + 1));
                }
                m = m + 1;
            }
            proof {
                assert(rem.subrange(1, rem.len() as int) =~= input@.subrange(
                    i + 1,
                    input@.len() as int,
                ));
                assert(cobs_decode(rem) == rem.subrange(1, rem.len() as int));
                assert(out@ =~= cobs_decode(input@));
            }
            break;
        } else {
            // an inner group: copy l - 1 bytes, then the zero the group encoded
            let mut m: usize = i + 1;
            while m < i + li
                invariant
                    n == input@.len(),
                    i + 1 <= m <= i + li,
                    i + li < n,
                    out@ == out0 + input@.subrange(i + 1, m as int),
                decreases i + li - m,
            {
                out.push(input[m]);
                proof {
                    assert(out@ =~= out0 + input@.subrange(i + 1, m + 1));
                }
                m = m + 1;
            }
            if l < 255 {
                out.push(0);
            }
            proof {
                assert(rem.subrange(1, li as int) =~= input@.subrange(i + 1, i + li));
                assert(rem.skip(li as int) =~= input@.skip(i + li));
                if l < 255 {
                    assert(cobs_decode(rem) == rem.subrange(1, li as int) + seq![0u8]
                        + cobs_decode(rem.skip(li as int)));
                } else {
                    assert(cobs_decode(rem) == rem.subrange(1, li as int) + cobs_decode(
                        rem.skip(li as int),
                    ));
                }
                assert(cobs_decode(input@) =~= out@ + cobs_decode(input@.skip(i + li)));
            }
            i = i + li;
        }
    }
    out
}

} // verus!
