//! The differential frame codec: a frame travels as the byte-wise XOR with
//! the frame before it, and is rebuilt by the same XOR on the other side.

use vstd::prelude::*;

verus! {

/// The byte-wise XOR of two buffers, as long as the first.
pub open spec fn xor_seq(a: Seq<u8>, b: Seq<u8>) -> Seq<u8> {
    Seq::new(a.len(), |i: int| a[i] ^ b[i])
}

/// A buffer with every byte cut down to the bits of `mask`.
pub open spec fn masked(a: Seq<u8>, mask: u8) -> Seq<u8> {
    Seq::new(a.len(), |i: int| a[i] & mask)
}

/// Whether every byte of a buffer is zero.
pub open spec fn all_zero(a: Seq<u8>) -> bool {
    forall|i: int| 0 <= i < a.len() ==> a[i] == 0
}

proof fn lemma_xor_byte(a: u8, b: u8)
    by (bit_vector)
    ensures
        a ^ (a ^ b) == b,
        (a ^ b == 0) == (a == b),
        a ^ b == b ^ a,
{
}

proof fn lemma_mask_byte(a: u8, mask: u8)
    by (bit_vector)
    ensures
        (a & mask) & mask == a & mask,
        (a & mask) & !mask == 0,
{
}

/// Applying to `previous` the difference between `previous` and `current`
/// gives `current` back: what the receiver rebuilds is the frame that the
/// sender captured.
pub proof fn lemma_delta_round_trip(previous: Seq<u8>, current: Seq<u8>)
    requires
        previous.len() == current.len(),
    ensures
        xor_seq(previous, xor_seq(previous, current)) == current,
{
    assert forall|i: int| 0 <= i < previous.len() implies #[trigger] xor_seq(
        previous,
        xor_seq(previous, current),
    )[i] == current[i] by {
        lemma_xor_byte(previous[i], current[i]);
    }
    assert(xor_seq(previous, xor_seq(previous, current)) =~= current);
}

/// The difference between two frames of one length is all zero exactly when
/// the frames are equal.
pub proof fn lemma_zero_delta_iff_equal(previous: Seq<u8>, current: Seq<u8>)
    requires
        previous.len() == current.len(),
    ensures
        all_zero(xor_seq(previous, current)) <==> previous == current,
{
    let diff = xor_seq(previous, current);
    if previous == current {
        assert forall|i: int| 0 <= i < diff.len() implies diff[i] == 0 by {
            lemma_xor_byte(previous[i], current[i]);
        }
    }
    if all_zero(diff) {
        assert forall|i: int| 0 <= i < previous.len() implies previous[i] == current[i] by {
            assert(diff[i] == 0);
            lemma_xor_byte(previous[i], current[i]);
        }
        assert(previous =~= current);
    }
}

/// The difference does not depend on which frame is taken first.
pub proof fn lemma_delta_symmetric(a: Seq<u8>, b: Seq<u8>)
    requires
        a.len() == b.len(),
    ensures
        xor_seq(a, b) == xor_seq(b, a),
{
    assert forall|i: int| 0 <= i < a.len() implies #[trigger] xor_seq(a, b)[i] == xor_seq(
        b,
        a,
    )[i] by {
        lemma_xor_byte(a[i], b[i]);
    }
    assert(xor_seq(a, b) =~= xor_seq(b, a));
}

/// Masking is lossy but settles at once: a masked buffer is unchanged by
/// the same mask, and holds none of the bits that the mask drops.
pub proof fn lemma_mask_idempotent(a: Seq<u8>, mask: u8)
    ensures
        masked(masked(a, mask), mask) == masked(a, mask),
        forall|i: int| 0 <= i < a.len() ==> #[trigger] masked(a, mask)[i] & !mask == 0,
{
    assert forall|i: int| 0 <= i < a.len() implies #[trigger] masked(masked(a, mask), mask)[i]
        == masked(a, mask)[i] && masked(a, mask)[i] & !mask == 0 by {
        lemma_mask_byte(a[i], mask);
    }
    assert(masked(masked(a, mask), mask) =~= masked(a, mask));
}

/// Writes into `diff` the byte-wise XOR of `previous` and `current`,
/// replacing what it held, and tells whether the two frames differ.
///
/// A result of `false` means "no change": the difference is all zero and
/// there is nothing to transmit.
pub fn encode_delta(current: &[u8], previous: &[u8], diff: &mut Vec<u8>) -> (changed: bool)
    requires
        current@.len() == previous@.len(),
    ensures
        final(diff)@ == xor_seq(previous@, current@),
        changed == (current@ != previous@),
{
    diff.clear();
    let n = current.len();
    let mut changed = false;
    let mut i: usize = 0;
    proof {
        assert(current@.take(0) =~= previous@.take(0));
    }
    while i < n
        invariant
            n == current@.len(),
            n == previous@.len(),
            i <= n,
            diff@.len() == i,
            forall|k: int| 0 <= k < i ==> diff@[k] == previous@[k] ^ current@[k],
            changed == (current@.take(i as int) != previous@.take(i as int)),
        decreases n - i,
    {
        let d: u8 = previous[i] ^ current[i];
        proof {
            lemma_xor_byte(previous@[i as int], current@[i as int]);
            let cur_head = current@.take(i as int);
            let prev_head = previous@.take(i as int);
            let cur_next = current@.take(i + 1);
            let prev_next = previous@.take(i + 1);
            assert(cur_head =~= cur_next.take(i as int));
            assert(prev_head =~= prev_next.take(i as int));
            assert(cur_next[i as int] == current@[i as int]);
            assert(prev_next[i as int] == previous@[i as int]);
            if cur_head == prev_head && d == 0 {
                assert(cur_next =~= prev_next);
            }
        }
        if d != 0 {
            changed = true;
        }
        diff.push(d);
        i += 1;
    }
    proof {
        assert(current@.take(n as int) =~= current@);
        assert(previous@.take(n as int) =~= previous@);
        assert(diff@ =~= xor_seq(previous@, current@));
    }
    changed
}

/// Applies a difference to the frame on display, in place.
pub fn decode_delta(displayed: &mut [u8], diff: &[u8])
    requires
        old(displayed)@.len() == diff@.len(),
    ensures
        final(displayed)@ == xor_seq(old(displayed)@, diff@),
{
    let ghost before = displayed@;
    let n = displayed.len();
    let mut i: usize = 0;
    while i < n
        invariant
            n == before.len(),
            n == diff@.len(),
            i <= n,
            displayed@.len() == n,
            forall|k: int| 0 <= k < i ==> displayed@[k] == before[k] ^ diff@[k],
            forall|k: int| i <= k < n ==> displayed@[k] == before[k],
        decreases n - i,
    {
        let b: u8 = displayed[i] ^ diff[i];
        displayed[i] = b;
        i += 1;
    }
    proof {
        assert(displayed@ =~= xor_seq(before, diff@));
    }
}

/// Cuts every byte of a captured frame down to the bits of `mask`, in place.
///
/// This loses the dropped bits for good; in return the frames of a still
/// picture differ less from one capture to the next.
pub fn mask_frame(frame: &mut [u8], mask: u8)
    ensures
        final(frame)@ == masked(old(frame)@, mask),
{
    let ghost before = frame@;
    let n = frame.len();
    let mut i: usize = 0;
    while i < n
        invariant
            n == before.len(),
            i <= n,
            frame@.len() == n,
            forall|k: int| 0 <= k < i ==> frame@[k] == before[k] & mask,
            forall|k: int| i <= k < n ==> frame@[k] == before[k],
        decreases n - i,
    {
        let b: u8 = frame[i] & mask;
        frame[i] = b;
        i += 1;
    }
    proof {
        assert(frame@ =~= masked(before, mask));
    }
}

} // verus!
