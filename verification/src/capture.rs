//! Around the capture backend: what to do when it has no frame to give, and
//! how a bottom-up BGRA picture as some backends deliver it becomes a
//! top-down one, or packed RGB.

use vstd::arithmetic::div_mod::lemma_fundamental_div_mod_converse;
use vstd::prelude::*;

verus! {

/// The pause before the backend is asked again for a frame, in nanoseconds:
/// a sixtieth of a second.
pub const RETRY_NANOS: u64 = 16_666_666;

/// The pause before the backend is set up anew, in nanoseconds.
pub const RELOAD_NANOS: u64 = 200_000_000;

/// How an attempt to capture a frame ended.
#[derive(Clone, Copy, Debug, PartialEq, Eq, Structural)]
pub enum CaptureOutcome {
    /// The backend delivered a frame.
    Frame,
    /// The backend has no new frame yet.
    WouldBlock,
    /// The backend failed otherwise.
    Failed,
    /// There is no backend: setting it up failed the last time.
    Missing,
}

/// What to do after an attempt to capture a frame.
#[derive(Clone, Copy, Debug, PartialEq, Eq, Structural)]
pub enum CaptureAction {
    /// Hand the frame on.
    Deliver,
    /// Sleep this many nanoseconds and ask again.
    Retry(u64),
    /// Sleep this many nanoseconds, set the backend up anew, and ask again.
    Reload(u64),
}

/// What follows an attempt to capture a frame.
pub open spec fn capture_policy(outcome: CaptureOutcome) -> CaptureAction {
    match outcome {
        CaptureOutcome::Frame => CaptureAction::Deliver,
        CaptureOutcome::WouldBlock => CaptureAction::Retry(RETRY_NANOS),
        CaptureOutcome::Failed => CaptureAction::Reload((RETRY_NANOS + RELOAD_NANOS) as u64),
        CaptureOutcome::Missing => CaptureAction::Reload(RELOAD_NANOS),
    }
}

/// Decides what to do after an attempt to capture a frame. A missing frame
/// is never an error of the session: the capturer waits and asks again, and
/// sets the backend up anew after a failure.
pub fn capture_step(outcome: CaptureOutcome) -> (action: CaptureAction)
    ensures
        action == capture_policy(outcome),
{
    match outcome {
        CaptureOutcome::Frame => CaptureAction::Deliver,
        CaptureOutcome::WouldBlock => CaptureAction::Retry(RETRY_NANOS),
        CaptureOutcome::Failed => CaptureAction::Reload(RETRY_NANOS + RELOAD_NANOS),
        CaptureOutcome::Missing => CaptureAction::Reload(RELOAD_NANOS),
    }
}

/// A picture of `rows` rows of `row_bytes` bytes each with its rows in
/// reverse order.
pub open spec fn rows_reversed(picture: Seq<u8>, row_bytes: int, rows: int) -> Seq<u8> {
    Seq::new(
        picture.len(),
        |k: int| picture[(rows - 1 - k / row_bytes) * row_bytes + k % row_bytes],
    )
}

/// The packed RGB picture of a packed BGRA picture: of every four bytes the
/// first three, in reverse order.
pub open spec fn rgb_of_bgra(bgra: Seq<u8>) -> Seq<u8> {
    Seq::new(((bgra.len() / 4) * 3) as nat, |k: int| bgra[(k / 3) * 4 + 2 - k % 3])
}

/// The RGB buffer after as many pixels as both buffers hold whole were
/// written to its front; what lies behind them stays.
pub open spec fn rgb_written(before: Seq<u8>, bgra: Seq<u8>) -> Seq<u8> {
    let pixels = if before.len() / 3 <= bgra.len() / 4 {
        before.len() / 3
    } else {
        bgra.len() / 4
    };
    Seq::new(
        before.len(),
        |k: int|
            if k < 3 * pixels {
                rgb_of_bgra(bgra)[k]
            } else {
                before[k]
            },
    )
}

/// Reversing the rows twice gives the picture back.
pub proof fn lemma_rows_reversed_twice(picture: Seq<u8>, row_bytes: int, rows: int)
    requires
        row_bytes > 0,
        rows >= 0,
        picture.len() == rows * row_bytes,
    ensures
        rows_reversed(rows_reversed(picture, row_bytes, rows), row_bytes, rows) == picture,
{
    let once = rows_reversed(picture, row_bytes, rows);
    let twice = rows_reversed(once, row_bytes, rows);
    assert forall|k: int| 0 <= k < picture.len() implies twice[k] == picture[k] by {
        lemma_row_of(k, row_bytes, rows);
        let r = k / row_bytes;
        let c = k % row_bytes;
        let m = (rows - 1 - r) * row_bytes + c;
        lemma_fundamental_div_mod_converse(m, row_bytes, rows - 1 - r, c);
        assert(0 <= m < rows * row_bytes) by (nonlinear_arith)
            requires
                0 <= rows - 1 - r < rows,
                0 <= c < row_bytes,
                m == (rows - 1 - r) * row_bytes + c,
        ;
        assert((rows - 1 - (rows - 1 - r)) * row_bytes + c == k) by (nonlinear_arith)
            requires
                k == row_bytes * r + c,
        ;
    }
    assert(twice =~= picture);
}

proof fn lemma_row_of(k: int, row_bytes: int, rows: int)
    requires
        row_bytes > 0,
        0 <= k < rows * row_bytes,
    ensures
        0 <= k / row_bytes < rows,
        0 <= k % row_bytes < row_bytes,
        k == row_bytes * (k / row_bytes) + k % row_bytes,
        k == (k / row_bytes) * row_bytes + k % row_bytes,
{
    vstd::arithmetic::div_mod::lemma_fundamental_div_mod(k, row_bytes);
    let r = k / row_bytes;
    assert(row_bytes * r == r * row_bytes) by (nonlinear_arith);
    assert(0 <= r < rows) by (nonlinear_arith)
        requires
            row_bytes > 0,
            0 <= k < rows * row_bytes,
            k == row_bytes * r + k % row_bytes,
            0 <= k % row_bytes < row_bytes,
    ;
}

/// Turns a picture upside down, in place: the first row changes places with
/// the last, the second with the last but one, and so on.
pub fn flip_rows(picture: &mut [u8], row_bytes: usize)
    requires
        row_bytes > 0,
        old(picture)@.len() % row_bytes as nat == 0,
    ensures
        final(picture)@ == rows_reversed(
            old(picture)@,
            row_bytes as int,
            old(picture)@.len() as int / row_bytes as int,
        ),
{
    let ghost before = picture@;
    let len = picture.len();
    let rows = len / row_bytes;
    let ghost rb = row_bytes as int;
    let ghost want = rows_reversed(before, rb, rows as int);
    proof {
        vstd::arithmetic::div_mod::lemma_fundamental_div_mod(len as int, rb);
        assert(rows * row_bytes == len) by (nonlinear_arith)
            requires
                len == rb * (len as int / rb) + (len as int % rb),
                len as int % rb == 0,
                rows == len as int / rb,
                rb == row_bytes,
        ;
    }
    let mut top: usize = 0;
    while top < rows / 2
        invariant
            row_bytes > 0,
            rb == row_bytes,
            rows * row_bytes == len,
            len == before.len(),
            picture@.len() == len,
            top <= rows / 2,
            want == rows_reversed(before, rb, rows as int),
            forall|k: int|
                0 <= k < len && 0 <= k / rb < rows && (k / rb < top || k / rb >= rows - top)
                    ==> picture@[k] == want[k],
            forall|k: int|
                0 <= k < len && top <= k / rb < rows - top ==> picture@[k] == before[k],
        decreases rows / 2 - top,
    {
        let bottom: usize = rows - 1 - top;
        proof {
            assert(top * row_bytes + row_bytes <= bottom * row_bytes && bottom * row_bytes
                + row_bytes <= len) by (nonlinear_arith)
                requires
                    top < bottom,
                    bottom < rows,
                    rows * row_bytes == len,
                    row_bytes > 0,
            ;
            assert(0 <= top * row_bytes) by (nonlinear_arith)
                requires
                    row_bytes > 0,
            ;
            assert(bottom * rb == (rows - 1 - top) * rb);
        }
        let a: usize = top * row_bytes;
        let b: usize = bottom * row_bytes;
        let ghost entry = picture@;
        let mut c: usize = 0;
        while c < row_bytes
            invariant
                row_bytes > 0,
                rb == row_bytes,
                c <= row_bytes,
                a == top * row_bytes,
                b == bottom * row_bytes,
                a + row_bytes <= b,
                b + row_bytes <= len,
                picture@.len() == len,
                entry.len() == len,
                forall|k: int|
                    0 <= k < len && !(a <= k < a + c) && !(b <= k < b + c) ==> picture@[k]
                        == entry[k],
                forall|k: int| a <= k < a + c ==> picture@[k] == entry[k - a + b],
                forall|k: int| b <= k < b + c ==> picture@[k] == entry[k - b + a],
            decreases row_bytes - c,
        {
            let upper: u8 = picture[a + c];
            let lower: u8 = picture[b + c];
            picture[a + c] = lower;
            picture[b + c] = upper;
            c += 1;
        }
        proof {
            assert forall|k: int|
                0 <= k < len && 0 <= k / rb < rows && (k / rb < top + 1 || k / rb >= rows - (top
                    + 1)) implies picture@[k] == want[k] by {
                lemma_row_of(k, rb, rows as int);
                let r = k / rb;
                let col = k % rb;
                if r == top {
                    assert(k == a + col);
                    assert(picture@[a + col] == entry[b + col]);
                    lemma_row_of(b + col, rb, rows as int);
                    lemma_fundamental_div_mod_converse(b + col, rb, bottom as int, col);
                    assert(entry[b + col] == before[b + col]);
                } else if r == bottom {
                    assert(k == b + col);
                    assert(picture@[b + col] == entry[a + col]);
                    lemma_fundamental_div_mod_converse(a + col, rb, top as int, col);
                    assert(entry[a + col] == before[a + col]);
                    assert((rows - 1 - r) * rb + col == a + col) by (nonlinear_arith)
                        requires
                            r == rows - 1 - top,
                            a == top * rb,
                    ;
                } else {
                    assert(!(a <= k < a + rb) && !(b <= k < b + rb)) by (nonlinear_arith)
                        requires
                            k == r * rb + col,
                            0 <= col < rb,
                            r != top,
                            r != bottom,
                            a == top * rb,
                            b == bottom * rb,
                    ;
                }
            }
            assert forall|k: int| 0 <= k < len && top + 1 <= k / rb < rows - (top + 1) implies
                picture@[k] == before[k] by {
                lemma_row_of(k, rb, rows as int);
                let r = k / rb;
                let col = k % rb;
                assert(!(a <= k < a + rb) && !(b <= k < b + rb)) by (nonlinear_arith)
                    requires
                        k == r * rb + col,
                        0 <= col < rb,
                        r != top,
                        r != bottom,
                        a == top * rb,
                        b == bottom * rb,
                ;
            }
        }
        top += 1;
    }
    proof {
        assert forall|k: int| 0 <= k < len implies picture@[k] == want[k] by {
            lemma_row_of(k, rb, rows as int);
            let r = k / rb;
            if top <= r < rows - top {
                assert(rows - 1 - r == r);
            }
        }
        assert(picture@ =~= want);
    }
}

/// Writes the pixels of a packed BGRA picture to the front of `rgb` as
/// packed RGB: as many pixels as both buffers hold whole. The rest of `rgb`
/// is left as it was.
pub fn bgra_to_rgb(bgra: &[u8], rgb: &mut [u8])
    ensures
        final(rgb)@ == rgb_written(old(rgb)@, bgra@),
{
    let ghost before = rgb@;
    let ghost want = rgb_written(before, bgra@);
    let rgb_len = rgb.len();
    let bgra_len = bgra.len();
    let pixels = if rgb_len / 3 <= bgra_len / 4 {
        rgb_len / 3
    } else {
        bgra_len / 4
    };
    let mut p: usize = 0;
    while p < pixels
        invariant
            p <= pixels,
            3 * pixels <= rgb_len,
            4 * pixels <= bgra_len,
            rgb_len == before.len(),
            bgra_len == bgra@.len(),
            rgb@.len() == rgb_len,
            want == rgb_written(before, bgra@),
            pixels == if rgb_len / 3 <= bgra_len / 4 {
                rgb_len / 3
            } else {
                bgra_len / 4
            },
            forall|k: int| 0 <= k < 3 * p ==> rgb@[k] == want[k],
            forall|k: int| 3 * p <= k < rgb_len ==> rgb@[k] == before[k],
        decreases pixels - p,
    {
        let blue: u8 = bgra[4 * p];
        let green: u8 = bgra[4 * p + 1];
        let red: u8 = bgra[4 * p + 2];
        rgb[3 * p] = red;
        rgb[3 * p + 1] = green;
        rgb[3 * p + 2] = blue;
        p += 1;
    }
    proof {
        assert(rgb@ =~= want);
    }
}

} // verus!
