//! Choosing an exclusive-fullscreen video mode.

use vstd::prelude::*;

verus! {

/// A fullscreen video mode as reported by the windowing layer.
#[derive(Clone, Copy, PartialEq, Eq, Structural, Debug)]
pub struct VideoModeInfo {
    pub width: u32,
    pub height: u32,
    pub bit_depth: u16,
    pub refresh_millihertz: u32,
}

/// Total order on video modes: resolution first (width, then height),
/// then color depth, then refresh rate.
pub open spec fn mode_le(a: VideoModeInfo, b: VideoModeInfo) -> bool {
    if a.width != b.width {
        a.width < b.width
    } else if a.height != b.height {
        a.height < b.height
    } else if a.bit_depth != b.bit_depth {
        a.bit_depth < b.bit_depth
    } else {
        a.refresh_millihertz <= b.refresh_millihertz
    }
}

/// The mode order is transitive.
proof fn lemma_mode_le_trans(a: VideoModeInfo, b: VideoModeInfo, c: VideoModeInfo)
    requires
        mode_le(a, b),
        mode_le(b, c),
    ensures
        mode_le(a, c),
{
}

/// Whether `a` ranks at least as high as `b`.
fn mode_ge(a: VideoModeInfo, b: VideoModeInfo) -> (r: bool)
    ensures
        r == mode_le(b, a),
{
    if a.width != b.width {
        a.width > b.width
    } else if a.height != b.height {
        a.height > b.height
    } else if a.bit_depth != b.bit_depth {
        a.bit_depth > b.bit_depth
    } else {
        a.refresh_millihertz >= b.refresh_millihertz
    }
}

/// Picks the video mode for exclusive fullscreen: the greatest mode under
/// largest resolution, then greatest color depth, then highest refresh
/// rate, in that tie-break order.  Returns `None` only when the list is
/// empty.
pub fn get_ideal_video_mode(modes: &Vec<VideoModeInfo>) -> (r: Option<VideoModeInfo>)
    ensures
        r is Some <==> modes@.len() > 0,
        r matches Some(m) ==> {
            &&& exists|i: int| 0 <= i < modes@.len() && modes@[i] == m
            &&& forall|i: int| 0 <= i < modes@.len() ==> mode_le(#[trigger] modes@[i], m)
        },
{
    let n = modes.len();
    if n == 0 {
        return None;
    }
    let mut best = modes[0];
    let mut k: usize = 1;
    while k < n
        invariant
            1 <= k <= n,
            n == modes@.len(),
            exists|i: int| 0 <= i < modes@.len() && modes@[i] == best,
            forall|i: int| 0 <= i < k ==> mode_le(#[trigger] modes@[i], best),
        decreases n - k,
    {
        let c = modes[k];
        if mode_ge(c, best) {
            proof {
                assert forall|i: int| 0 <= i < k + 1 implies mode_le(#[trigger] modes@[i], c) by {
                    if i < k {
                        lemma_mode_le_trans(modes@[i], best, c);
                    }
                }
            }
            best = c;
        }
        k = k + 1;
    }
    Some(best)
}

} // verus!
