//! The boundary policy of the correlation window: near an edge of the image
//! the window is moved back inside, and it is cut only where the image is
//! narrower than the window itself.

use vstd::math::{max, min};
use vstd::prelude::*;

verus! {

/// The offsets `[lo, hi)` that a window of `2 * half` positions covers
/// around two centres at once, `near <= far`, when no position may fall
/// below zero at `near` nor reach `limit` at `far`.
///
/// Away from the edges the offsets are `[-half, half)`. Where `near - half`
/// would fall below zero the window starts flush at position zero; where
/// `far + half` would pass `limit` it ends flush at `limit`. After the move,
/// what still sticks out on the other side is cut off.
pub open spec fn shifted_window(near: int, far: int, half: int, limit: int) -> (int, int) {
    if near < half {
        (-near, min(2 * half - near, limit - far))
    } else if far + half > limit {
        (max(limit - far - 2 * half, -near), limit - far)
    } else {
        (-half, half)
    }
}

/// A shifted window that is not empty keeps both centres inside
/// `[0, limit)` at every offset, and no shifted window covers more than
/// `2 * half` positions.
pub proof fn lemma_shifted_window_bounds(near: int, far: int, half: int, limit: int)
    requires
        0 <= near <= far,
        0 <= half,
    ensures
        ({
            let (lo, hi) = shifted_window(near, far, half, limit);
            &&& hi - lo <= 2 * half
            &&& lo < hi ==> 0 <= near + lo && far + hi <= limit
        }),
{
}

/// Computes [`shifted_window`].
pub fn window_offsets(near: u32, far: u32, half: u32, limit: u32) -> (w: (i64, i64))
    ensures
        (w.0 as int, w.1 as int) == shifted_window(
            near as int,
            far as int,
            half as int,
            limit as int,
        ),
{
    let near: i64 = near as i64;
    let far: i64 = far as i64;
    let half: i64 = half as i64;
    let limit: i64 = limit as i64;
    if near < half {
        let full: i64 = 2 * half - near;
        let room: i64 = limit - far;
        (-near, if full <= room { full } else { room })
    } else if far + half > limit {
        let full: i64 = limit - far - 2 * half;
        (if full >= -near { full } else { -near }, limit - far)
    } else {
        (-half, half)
    }
}

} // verus!
