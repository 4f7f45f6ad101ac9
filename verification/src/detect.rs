//! Rising-edge detection: the ordered frame indices at which a trigger
//! button goes from not pressed to pressed between consecutive frames.

use crate::recording::Frame;
use vstd::prelude::*;

verus! {

/// Whether the trigger button is held on a frame: some bit of the
/// trigger mask is set in the frame's button bitmask.
pub open spec fn pressed(f: Frame, mask: u32) -> bool {
    f.buttons_mask & mask != 0
}

/// Whether frame `i` is a rising edge: the button is up on frame `i - 1`
/// and down (pressed) on frame `i`. Frame 0 is never an edge.
pub open spec fn is_edge(frames: Seq<Frame>, mask: u32, i: int) -> bool {
    &&& 1 <= i < frames.len()
    &&& !pressed(frames[i - 1], mask)
    &&& pressed(frames[i], mask)
}

/// The ordered rising-edge indices among the first `n` frames.
pub open spec fn press_indices_upto(frames: Seq<Frame>, mask: u32, n: int) -> Seq<int>
    decreases n,
{
    if n <= 1 {
        Seq::empty()
    } else if is_edge(frames, mask, n - 1) {
        press_indices_upto(frames, mask, n - 1).push(n - 1)
    } else {
        press_indices_upto(frames, mask, n - 1)
    }
}

/// The ordered sequence of all rising-edge indices of a frame sequence.
pub open spec fn press_indices(frames: Seq<Frame>, mask: u32) -> Seq<int> {
    press_indices_upto(frames, mask, frames.len() as int)
}

/// The view of a list of machine-sized indices as integers.
pub open spec fn to_ints(s: Seq<usize>) -> Seq<int> {
    s.map_values(|x: usize| x as int)
}

/// Helper induction for [`lemma_press_indices_are_edges`].
proof fn lemma_press_indices_upto_edges(frames: Seq<Frame>, mask: u32, n: int)
    ensures
        forall|k: int| 0 <= k < press_indices_upto(frames, mask, n).len() ==> is_edge(
            frames,
            mask,
            #[trigger] press_indices_upto(frames, mask, n)[k],
        ) && press_indices_upto(frames, mask, n)[k] < n,
        forall|k1: int, k2: int|
            0 <= k1 < k2 < press_indices_upto(frames, mask, n).len()
                ==> #[trigger] press_indices_upto(frames, mask, n)[k1]
                < #[trigger] press_indices_upto(frames, mask, n)[k2],
    decreases n,
{
    if n > 1 {
        lemma_press_indices_upto_edges(frames, mask, n - 1);
        let prev = press_indices_upto(frames, mask, n - 1);
        let cur = press_indices_upto(frames, mask, n);
        if is_edge(frames, mask, n - 1) {
            assert(cur == prev.push(n - 1));
            assert forall|k: int| 0 <= k < cur.len() implies is_edge(
                frames,
                mask,
                #[trigger] cur[k],
            ) && cur[k] < n by {
                if k < prev.len() {
                    assert(cur[k] == prev[k]);
                } else {
                    assert(cur[k] == n - 1);
                }
            }
            assert forall|k1: int, k2: int| 0 <= k1 < k2 < cur.len() implies #[trigger] cur[k1]
                < #[trigger] cur[k2] by {
                assert(cur[k1] == prev[k1]);
                if k2 < prev.len() {
                    assert(cur[k2] == prev[k2]);
                } else {
                    assert(cur[k2] == n - 1);
                    assert(prev[k1] < n - 1);
                }
            }
        } else {
            assert(cur == prev);
        }
    }
}

/// Every index the Edge Detector emits is a rising edge: it is at least
/// 1 — index 0 is never emitted — the button is up on the frame before
/// it and pressed on it, and it is below the frame count. The emitted
/// indices are strictly increasing, matching frame order.
pub proof fn lemma_press_indices_are_edges(frames: Seq<Frame>, mask: u32)
    ensures
        forall|k: int| 0 <= k < press_indices(frames, mask).len() ==> is_edge(
            frames,
            mask,
            #[trigger] press_indices(frames, mask)[k],
        ),
        forall|k1: int, k2: int|
            0 <= k1 < k2 < press_indices(frames, mask).len()
                ==> #[trigger] press_indices(frames, mask)[k1] < #[trigger] press_indices(
                frames,
                mask,
            )[k2],
{
    lemma_press_indices_upto_edges(frames, mask, frames.len() as int);
}

/// A frame sequence with no rising edge yields an empty detection: the
/// Edge Detector emits nothing when no transition occurs.
pub proof fn lemma_no_edges_no_presses(frames: Seq<Frame>, mask: u32)
    requires
        forall|i: int| !is_edge(frames, mask, i),
    ensures
        press_indices(frames, mask) == Seq::<int>::empty(),
{
    lemma_press_indices_upto_empty(frames, mask, frames.len() as int);
}

/// Helper induction for [`lemma_no_edges_no_presses`].
proof fn lemma_press_indices_upto_empty(frames: Seq<Frame>, mask: u32, n: int)
    requires
        forall|i: int| !is_edge(frames, mask, i),
    ensures
        press_indices_upto(frames, mask, n) == Seq::<int>::empty(),
    decreases n,
{
    if n > 1 {
        lemma_press_indices_upto_empty(frames, mask, n - 1);
    }
}

/// Helper induction for [`lemma_press_indices_len`].
proof fn lemma_press_indices_upto_len(frames: Seq<Frame>, mask: u32, n: int)
    ensures
        press_indices_upto(frames, mask, n).len() <= if n <= 1 {
            0
        } else {
            n - 1
        },
    decreases n,
{
    if n > 1 {
        lemma_press_indices_upto_len(frames, mask, n - 1);
    }
}

/// Helper induction for [`lemma_press_indices_complete`].
proof fn lemma_press_indices_upto_complete(frames: Seq<Frame>, mask: u32, n: int, i: int)
    requires
        is_edge(frames, mask, i),
        i < n,
    ensures
        press_indices_upto(frames, mask, n).contains(i),
    decreases n,
{
    if i == n - 1 {
        assert(press_indices_upto(frames, mask, n).last() == i);
    } else {
        lemma_press_indices_upto_complete(frames, mask, n - 1, i);
        let prev = press_indices_upto(frames, mask, n - 1);
        let k = choose|k: int| 0 <= k < prev.len() && prev[k] == i;
        if is_edge(frames, mask, n - 1) {
            assert(press_indices_upto(frames, mask, n)[k] == i);
        }
    }
}

/// The detector misses nothing: every rising edge of the trigger
/// button appears among the emitted indices.
pub proof fn lemma_press_indices_complete(frames: Seq<Frame>, mask: u32)
    ensures
        forall|i: int| is_edge(frames, mask, i) ==> press_indices(frames, mask).contains(i),
{
    assert forall|i: int| is_edge(frames, mask, i) implies press_indices(
        frames,
        mask,
    ).contains(i) by {
        lemma_press_indices_upto_complete(frames, mask, frames.len() as int, i);
    }
}

/// The detector emits at most one index per frame pair: never more
/// indices than there are frames.
pub proof fn lemma_press_indices_len(frames: Seq<Frame>, mask: u32)
    ensures
        press_indices(frames, mask).len() <= frames.len(),
{
    lemma_press_indices_upto_len(frames, mask, frames.len() as int);
}

/// Scans a frame sequence for rising edges of the trigger mask and
/// returns the ordered frame indices at which a press first registers.
pub fn get_presses(frames: &Vec<Frame>, mask: u32) -> (r: Vec<usize>)
    ensures
        to_ints(r@) == press_indices(frames@, mask),
        forall|k: int| 0 <= k < r@.len() ==> #[trigger] r@[k] < frames@.len(),
{
    let n: usize = frames.len();
    let mut out: Vec<usize> = Vec::new();
    if n == 0 {
        proof {
            assert(to_ints(out@) =~= press_indices(frames@, mask));
        }
        return out;
    }
    let mut i: usize = 1;
    while i < n
        invariant
            1 <= i <= n,
            n == frames@.len(),
            to_ints(out@) == press_indices_upto(frames@, mask, i as int),
            forall|k: int| 0 <= k < out@.len() ==> #[trigger] out@[k] < i,
        decreases n - i,
    {
        let was_down: bool = frames[i - 1].buttons_mask & mask != 0;
        let is_down: bool = frames[i].buttons_mask & mask != 0;
        if !was_down && is_down {
            out.push(i);
        }
        proof {
            assert(to_ints(out@) =~= press_indices_upto(frames@, mask, i + 1));
        }
        i = i + 1;
    }
    out
}

} // verus!
