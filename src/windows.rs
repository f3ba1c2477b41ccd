//! Overlapping windows over a text.

use vstd::prelude::*;

verus! {

/// The windows `[start, end)` over a text of `len` characters, beginning at
/// `start` and advancing by `step`: each spans `size` characters, and the
/// first window that reaches the end of the text ends there and is the last.
pub open spec fn window_bounds(start: int, len: int, size: int, step: int) -> Seq<(int, int)>
    decreases (if start < len { len - start } else { 0 }),
{
    if step <= 0 || start >= len {
        Seq::empty()
    } else if start + size >= len {
        seq![(start, len)]
    } else {
        seq![(start, start + size)] + window_bounds(start + step, len, size, step)
    }
}

pub open spec fn bounds_view(r: Seq<(usize, usize)>) -> Seq<(int, int)> {
    r.map_values(|p: (usize, usize)| (p.0 as int, p.1 as int))
}

/// The character ranges of the overlapping windows over a text of `len`
/// characters: windows of `size` characters that advance by `size - overlap`
/// until one reaches the end of the text.
pub fn split_windows(len: usize, size: usize, overlap: usize) -> (r: Vec<(usize, usize)>)
    requires
        overlap < size,
    ensures
        bounds_view(r@) == window_bounds(0, len as int, size as int, size - overlap),
{
    let step = size - overlap;
    let mut r: Vec<(usize, usize)> = Vec::new();
    let mut start: usize = 0;
    while start < len
        invariant
            step == size - overlap,
            0 < step <= size,
            start <= len,
            bounds_view(r@) + window_bounds(start as int, len as int, size as int, step as int)
                == window_bounds(0, len as int, size as int, step as int),
        decreases len - start,
    {
        let ghost old_r = r@;
        let ghost w = window_bounds(start as int, len as int, size as int, step as int);
        if size >= len - start {
            r.push((start, len));
            proof {
                assert(w == seq![(start as int, len as int)]);
                assert(window_bounds(len as int, len as int, size as int, step as int)
                    =~= Seq::<(int, int)>::empty());
                assert(bounds_view(r@) =~= bounds_view(old_r).push((start as int, len as int)));
                assert(bounds_view(old_r) + w =~= bounds_view(r@) + Seq::<(int, int)>::empty());
            }
            start = len;
        } else {
            let end = start + size;
            r.push((start, end));
            proof {
                let rest = window_bounds(start + step, len as int, size as int, step as int);
                assert(w == seq![(start as int, end as int)] + rest);
                assert(bounds_view(r@) =~= bounds_view(old_r).push((start as int, end as int)));
                assert(bounds_view(old_r) + w =~= bounds_view(r@) + rest);
            }
            start = start + step;
        }
    }
    proof {
        assert(bounds_view(r@) + Seq::<(int, int)>::empty() =~= bounds_view(r@));
    }
    r
}

/// Window `i` of `w` starts `i` steps after `start`, before the end of the
/// text, and spans `size` characters; only the last one, which ends exactly
/// at the end of the text, may be shorter.
pub open spec fn window_at(w: Seq<(int, int)>, i: int, start: int, len: int, size: int, step: int) -> bool {
    &&& w[i].0 == start + i * step
    &&& w[i].0 < len
    &&& i < w.len() - 1 ==> w[i].1 == w[i].0 + size && w[i].1 < len
    &&& i == w.len() - 1 ==> w[i].1 == len && len <= w[i].0 + size
}

proof fn lemma_window_positions(start: int, len: int, size: int, step: int)
    requires
        0 < step <= size,
        0 <= start,
    ensures
        ({
            let w = window_bounds(start, len, size, step);
            &&& forall|i: int| 0 <= i < w.len() ==> #[trigger] window_at(w, i, start, len, size, step)
            &&& (start < len <==> w.len() > 0)
        }),
    decreases (if start < len { len - start } else { 0 }),
{
    let w = window_bounds(start, len, size, step);
    if start < len && start + size < len {
        lemma_window_positions(start + step, len, size, step);
        let rest = window_bounds(start + step, len, size, step);
        assert(w == seq![(start, start + size)] + rest);
        assert forall|i: int| 0 <= i < w.len() implies #[trigger] window_at(w, i, start, len, size, step) by {
            if i > 0 {
                assert(w[i] == rest[i - 1]);
                assert(window_at(rest, i - 1, start + step, len, size, step));
                assert(start + step + (i - 1) * step == start + i * step) by (nonlinear_arith);
            } else {
                assert(0 * step == 0);
            }
        }
    } else if start < len {
        assert(w == seq![(start, len)]);
        assert(0 * step == 0);
        assert(window_at(w, 0, start, len, size, step));
    }
}

/// Windows over a text longer than `size`, with `overlap < size`: window `i`
/// starts at `i * (size - overlap)` and before the end of the text; every
/// window but the last spans `size` characters and ends before the end of
/// the text, and the last ends exactly at the end, so no window follows the
/// first one that reaches it.
pub proof fn lemma_windows_cover(len: int, size: int, overlap: int)
    requires
        0 <= overlap < size < len,
    ensures
        ({
            let w = window_bounds(0, len, size, size - overlap);
            &&& w.len() > 1
            &&& forall|i: int| 0 <= i < w.len() ==> #[trigger] window_at(w, i, 0, len, size, size - overlap)
        }),
{
    lemma_window_positions(0, len, size, size - overlap);
    let w = window_bounds(0, len, size, size - overlap);
    assert(w == seq![(0int, size)] + window_bounds(size - overlap, len, size, size - overlap));
    assert(size - overlap < len);
    lemma_window_positions(size - overlap, len, size, size - overlap);
}

} // verus!
