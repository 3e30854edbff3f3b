//! The picker context: one frame and one cached passthrough buffer per
//! overlay window, plus the mode-dependent, clamped zoom state.

use vstd::prelude::*;
use crate::color::Pixel;
use crate::config::{Args, ZoomPolicy, clamped};
use crate::frame::{Frame, packed_spec, lemma_mul_bounds, lemma_linear_split, MAX_DIM};
use crate::magnifier::{magnify, crop_in_bounds, packed_composed};

verus! {

/// Cursor visibility threshold: at or below this zoom window size the
/// system cursor is hidden, so it does not hide the very pixels the small
/// magnifier shows.
pub const CURSOR_SIZE_THRESHOLD: u32 = 5;

/// Whether the magnifier should be drawn: a persistent toggle and a
/// momentary hold, combined exclusively.
pub open spec fn zoom_display(toggle: bool, hold: bool) -> bool {
    toggle != hold
}

/// The zoom scale after one scroll step: multiplied or divided by twice
/// the scroll magnitude, saturated at the policy bounds; a zero step
/// changes nothing.
pub open spec fn zoom_after_scroll(zoom: int, negative: bool, units: int, p: ZoomPolicy) -> int {
    let step = 2 * units;
    if step == 0 {
        zoom
    } else if negative {
        clamped(zoom / step, p.scale_min as int, p.scale_max as int)
    } else {
        clamped(zoom * step, p.scale_min as int, p.scale_max as int)
    }
}

/// The zoom window size after one scroll step: grown or shrunk by twice
/// the scroll magnitude (an even step, so oddness is kept), saturated at
/// the policy bounds.
pub open spec fn size_after_scroll(size: int, negative: bool, units: int, p: ZoomPolicy) -> int {
    let step = 2 * units;
    if negative {
        clamped(size - step, p.size_min as int, p.size_max as int)
    } else {
        clamped(size + step, p.size_min as int, p.size_max as int)
    }
}

/// Cursor visibility after a size scroll: shrinking to at most the
/// threshold hides the cursor, growing past it shows the cursor again.
pub open spec fn cursor_after_scroll(size_after: int, negative: bool, cur: bool) -> bool {
    if negative {
        if size_after <= CURSOR_SIZE_THRESHOLD {
            false
        } else {
            cur
        }
    } else {
        if size_after > CURSOR_SIZE_THRESHOLD {
            true
        } else {
            cur
        }
    }
}

/// Every frame in a window list is well formed.
pub open spec fn all_frames_wf(s: Seq<(u64, Frame)>) -> bool {
    forall|i: int| 0 <= i < s.len() ==> (#[trigger] s[i]).1.wf()
}

/// No window identity occurs twice.
pub open spec fn ids_unique(s: Seq<(u64, Frame)>) -> bool {
    forall|i: int, j: int| 0 <= i < j < s.len() ==> (#[trigger] s[i]).0 != (#[trigger] s[j]).0
}

/// Index of the entry for window `w` among `s[i..]`, if any.
pub open spec fn find_entry(s: Seq<(u64, Frame)>, w: u64, i: int) -> Option<int>
    decreases s.len() - i,
{
    if i < 0 || i >= s.len() {
        None
    } else if s[i].0 == w {
        Some(i)
    } else {
        find_entry(s, w, i + 1)
    }
}

/// Why the picker context could not be built.
#[derive(Clone, Copy, PartialEq, Eq, Structural, Debug)]
pub enum SetupError {
    /// Some window's frame is malformed (dimension limits or byte count).
    BadFrame,
    /// Two windows carry the same identity.
    DuplicateWindow,
}

struct WindowFrame {
    id: u64,
    frame: Frame,
    cached: Vec<u32>,
}

/// The picker's state: the per-window frame store and the zoom controls.
pub struct PickerContext {
    store: Vec<WindowFrame>,
    cursor: bool,
    toggle_zoom: bool,
    hold_zoom: bool,
    hold_right_click: bool,
    zoom: u32,
    zoom_size: u32,
    policy: ZoomPolicy,
}

/// The abstract state of a [`PickerContext`]: everything its contracts
/// speak of.  The cached packed buffers are left out; well-formedness ties
/// them to the frames.
pub struct PickerView {
    /// Window identities and their frames, in creation order.
    pub store: Seq<(u64, Frame)>,
    /// Whether the system cursor is shown.
    pub cursor: bool,
    /// The persistent zoom toggle.
    pub toggle_zoom: bool,
    /// The momentary zoom hold.
    pub hold_zoom: bool,
    /// Whether the secondary pointer button is held (re-routes scrolling).
    pub hold_right_click: bool,
    /// The current zoom scale.
    pub zoom: u32,
    /// The current zoom window size.
    pub zoom_size: u32,
    /// The clamping bounds in force.
    pub policy: ZoomPolicy,
}

impl View for PickerContext {
    type V = PickerView;

    closed spec fn view(&self) -> PickerView {
        PickerView {
            store: self.store@.map_values(|w: WindowFrame| (w.id, w.frame)),
            cursor: self.cursor,
            toggle_zoom: self.toggle_zoom,
            hold_zoom: self.hold_zoom,
            hold_right_click: self.hold_right_click,
            zoom: self.zoom,
            zoom_size: self.zoom_size,
            policy: self.policy,
        }
    }
}

impl PickerContext {
    #[verifier::opaque]
    pub closed spec fn store_wf(&self) -> bool {
        forall|i: int|
            0 <= i < self.store@.len() ==> {
                &&& (#[trigger] self.store@[i]).frame.wf()
                &&& self.store@[i].cached@ == packed_spec(self.store@[i].frame)
            }
    }

    /// Well-formedness: sound policy, both zoom values inside the policy
    /// bounds, an odd zoom window size, unique window identities, and a
    /// well-formed frame with an up-to-date packed buffer per window.
    pub open spec fn wf(&self) -> bool {
        &&& self@.policy.wf()
        &&& self@.policy.scale_min <= self@.zoom <= self@.policy.scale_max
        &&& self@.policy.size_min <= self@.zoom_size <= self@.policy.size_max
        &&& self@.zoom_size % 2 == 1
        &&& ids_unique(self@.store)
        &&& all_frames_wf(self@.store)
        &&& self.store_wf()
    }

    /// Whether window `w` belongs to the picker.
    pub open spec fn has_window(&self, w: u64) -> bool {
        find_entry(self@.store, w, 0) is Some
    }

    /// The frame owned by window `w` (meaningful when `has_window(w)`).
    pub open spec fn spec_frame_of(&self, w: u64) -> Frame {
        self@.store[find_entry(self@.store, w, 0)->0].1
    }

    /// Whether the magnifier should be drawn: exactly one of the toggle
    /// and the hold is set.
    pub open spec fn spec_should_display_zoom(&self) -> bool {
        zoom_display(self@.toggle_zoom, self@.hold_zoom)
    }

    /// Builds the picker state over one frame per overlay window.
    /// `frames` pairs each window identity with the frame captured from
    /// its monitor; the packed passthrough buffer of each frame is built
    /// here, once.  The zoom scale starts at the square of the requested
    /// scale and the zoom window size at the requested size, both clamped
    /// into the policy bounds; the zoom starts on when `args.zoom` is set;
    /// the cursor starts visible only for zoom window sizes past the
    /// visibility threshold.
    pub fn new(frames: Vec<(u64, Frame)>, args: &Args, policy: ZoomPolicy) -> (r: Result<
        PickerContext,
        SetupError,
    >)
        requires
            policy.wf(),
            args.size % 2 == 1,
        ensures
            r is Ok <==> all_frames_wf(frames@) && ids_unique(frames@),
            r matches Err(e) ==> {
                ||| (e == SetupError::BadFrame && !all_frames_wf(frames@))
                ||| (e == SetupError::DuplicateWindow && !ids_unique(frames@))
            },
            r matches Ok(ctx) ==> {
                &&& ctx.wf()
                &&& ctx@.store == frames@
                &&& ctx@.policy == policy
                &&& ctx@.toggle_zoom == false
                &&& ctx@.hold_zoom == args.zoom
                &&& ctx@.hold_right_click == false
                &&& ctx@.zoom == clamped(
                    (args.scale as int) * (args.scale as int),
                    policy.scale_min as int,
                    policy.scale_max as int,
                )
                &&& ctx@.zoom_size == clamped(
                    args.size as int,
                    policy.size_min as int,
                    policy.size_max as int,
                )
                &&& ctx@.cursor == (ctx@.zoom_size >= CURSOR_SIZE_THRESHOLD)
            },
    {
        let n = frames.len();
        let mut k: usize = 0;
        while k < n
            invariant
                k <= n,
                n == frames@.len(),
                forall|i: int| 0 <= i < k ==> (#[trigger] frames@[i]).1.wf(),
            decreases n - k,
        {
            if !frames[k].1.well_formed() {
                return Err(SetupError::BadFrame);
            }
            k = k + 1;
        }
        let mut k: usize = 0;
        while k < n
            invariant
                k <= n,
                n == frames@.len(),
                forall|i: int, j: int|
                    0 <= i < j < k ==> (#[trigger] frames@[i]).0 != (#[trigger] frames@[j]).0,
            decreases n - k,
        {
            let mut j: usize = 0;
            while j < k
                invariant
                    j <= k < n,
                    n == frames@.len(),
                    forall|i: int| 0 <= i < j ==> (#[trigger] frames@[i]).0 != frames@[k as int].0,
                decreases k - j,
            {
                if frames[j].0 == frames[k].0 {
                    return Err(SetupError::DuplicateWindow);
                }
                j = j + 1;
            }
            k = k + 1;
        }
        let ghost frames0 = frames@;
        let mut rest = frames;
        let mut store: Vec<WindowFrame> = Vec::new();
        while rest.len() > 0
            invariant
                all_frames_wf(frames0),
                store@.len() + rest@.len() == frames0.len(),
                store@.map_values(|w: WindowFrame| (w.id, w.frame)) =~= frames0.take(
                    store@.len() as int,
                ),
                rest@ =~= frames0.skip(store@.len() as int),
                forall|i: int|
                    0 <= i < store@.len() ==> {
                        &&& (#[trigger] store@[i]).frame.wf()
                        &&& store@[i].cached@ == packed_spec(store@[i].frame)
                    },
            decreases rest@.len(),
        {
            let (id, frame) = rest.remove(0);
            proof {
                assert(frames0[store@.len() as int] == (id, frame));
                assert(frame.wf());
            }
            let cached = frame.packed();
            store.push(WindowFrame { id, frame, cached });
            proof {
                assert(store@.map_values(|w: WindowFrame| (w.id, w.frame)) =~= frames0.take(
                    store@.len() as int,
                ));
                assert(rest@ =~= frames0.skip(store@.len() as int));
            }
        }
        proof {
            lemma_mul_bounds(args.scale as int, args.scale as int, 0xFFFF_FFFF, 0xFFFF_FFFF);
        }
        let scale_sq: u64 = (args.scale as u64) * (args.scale as u64);
        let zoom: u32 = if scale_sq < (policy.scale_min as u64) {
            policy.scale_min
        } else if scale_sq > (policy.scale_max as u64) {
            policy.scale_max
        } else {
            scale_sq as u32
        };
        let zoom_size: u32 = if args.size < policy.size_min {
            policy.size_min
        } else if args.size > policy.size_max {
            policy.size_max
        } else {
            args.size
        };
        let cursor = zoom_size >= CURSOR_SIZE_THRESHOLD;
        let ctx = PickerContext {
            store,
            cursor,
            toggle_zoom: false,
            hold_zoom: args.zoom,
            hold_right_click: false,
            zoom,
            zoom_size,
            policy,
        };
        proof {
            assert(frames0.take(frames0.len() as int) =~= frames0);
            reveal(PickerContext::store_wf);
        }
        Ok(ctx)
    }

    /// Whether the system cursor is currently shown.
    pub fn cursor_visible(&self) -> (r: bool)
        ensures
            r == self@.cursor,
    {
        self.cursor
    }

    /// The current zoom scale.
    pub fn zoom(&self) -> (r: u32)
        ensures
            r == self@.zoom,
    {
        self.zoom
    }

    /// The current zoom window size.
    pub fn zoom_size(&self) -> (r: u32)
        ensures
            r == self@.zoom_size,
    {
        self.zoom_size
    }

    /// Whether the secondary pointer button is held.
    pub fn hold_right_click(&self) -> (r: bool)
        ensures
            r == self@.hold_right_click,
    {
        self.hold_right_click
    }

    /// The momentary zoom hold.
    pub fn hold_zoom(&self) -> (r: bool)
        ensures
            r == self@.hold_zoom,
    {
        self.hold_zoom
    }

    /// The persistent zoom toggle.
    pub fn toggle_zoom(&self) -> (r: bool)
        ensures
            r == self@.toggle_zoom,
    {
        self.toggle_zoom
    }

    /// The dimensions of window `w`'s frame, or `None` for an unknown
    /// window.
    pub fn window_size(&self, window_id: u64) -> (r: Option<(u32, u32)>)
        requires
            self.wf(),
        ensures
            r is Some <==> self.has_window(window_id),
            r matches Some(d) ==> d == (
                self.spec_frame_of(window_id).spec_width(),
                self.spec_frame_of(window_id).spec_height(),
            ),
    {
        match self.index_of(window_id) {
            None => None,
            Some(k) => {
                proof {
                    lemma_find_entry_props(self@.store, window_id, 0);
                    assert(self@.store[k as int].1 == self.store@[k as int].frame);
                }
                Some((self.store[k].frame.width(), self.store[k].frame.height()))
            },
        }
    }

    /// Whether the magnifier should be drawn: the persistent toggle and
    /// the momentary hold, exactly one set.
    pub fn should_display_zoom(&self) -> (r: bool)
        ensures
            r == self.spec_should_display_zoom(),
    {
        self.toggle_zoom ^ self.hold_zoom
    }

    /// Flips the persistent zoom toggle.
    pub fn flip_toggle_zoom(&mut self)
        ensures
            old(self).wf() ==> final(self).wf(),
            final(self)@ == (PickerView { toggle_zoom: !old(self)@.toggle_zoom, ..old(self)@ }),
    {
        self.toggle_zoom = !self.toggle_zoom;
        proof {
            reveal(PickerContext::store_wf);
        }
    }

    /// Sets the momentary zoom hold.
    pub fn set_hold_zoom(&mut self, held: bool)
        ensures
            old(self).wf() ==> final(self).wf(),
            final(self)@ == (PickerView { hold_zoom: held, ..old(self)@ }),
    {
        self.hold_zoom = held;
        proof {
            reveal(PickerContext::store_wf);
        }
    }

    /// Sets the secondary-button hold that re-routes scroll input.
    pub fn set_hold_right_click(&mut self, held: bool)
        ensures
            old(self).wf() ==> final(self).wf(),
            final(self)@ == (PickerView { hold_right_click: held, ..old(self)@ }),
    {
        self.hold_right_click = held;
        proof {
            reveal(PickerContext::store_wf);
        }
    }

    /// Requests cursor visibility.  Takes effect only when the zoom window
    /// is larger than the visibility threshold; for small zoom windows the
    /// cursor stays as it is.
    pub fn set_cursor(&mut self, cursor: bool)
        ensures
            old(self).wf() ==> final(self).wf(),
            final(self)@ == (PickerView {
                cursor: if old(self)@.zoom_size <= CURSOR_SIZE_THRESHOLD {
                    old(self)@.cursor
                } else {
                    cursor
                },
                ..old(self)@
            }),
    {
        proof {
            reveal(PickerContext::store_wf);
        }
        if self.zoom_size <= CURSOR_SIZE_THRESHOLD {
            return;
        }
        self.unchecked_cursor_update(cursor);
    }

    /// Sets cursor visibility without the threshold check.
    fn unchecked_cursor_update(&mut self, cursor: bool)
        ensures
            old(self).wf() ==> final(self).wf(),
            final(self)@ == (PickerView { cursor, ..old(self)@ }),
    {
        proof {
            reveal(PickerContext::store_wf);
        }
        if self.cursor == cursor {
            return;
        }
        self.cursor = cursor;
    }

    /// Index of window `w` in the store.
    fn index_of(&self, w: u64) -> (r: Option<usize>)
        ensures
            r is Some <==> find_entry(self@.store, w, 0) is Some,
            r matches Some(k) ==> find_entry(self@.store, w, 0) == Some(k as int),
    {
        let n = self.store.len();
        let mut k: usize = 0;
        while k < n
            invariant
                k <= n,
                n == self.store@.len(),
                find_entry(self@.store, w, 0) == find_entry(
                    self@.store,
                    w,
                    k as int,
                ),
            decreases n - k,
        {
            if self.store[k].id == w {
                return Some(k);
            }
            k = k + 1;
        }
        None
    }

    /// The exact pixel of window `w`'s original frame at `position`, or
    /// `None` when the window is unknown or the position lies outside the
    /// frame.  Reads the unmodified capture: the magnifier never touches
    /// it.
    pub fn get_pixel(&self, window_id: u64, x: u32, y: u32) -> (r: Option<Pixel>)
        requires
            self.wf(),
        ensures
            r == if self.has_window(window_id) && x < self.spec_frame_of(
                window_id,
            ).spec_width() && y < self.spec_frame_of(window_id).spec_height() {
                Some(self.spec_frame_of(window_id).pixel_spec(x as int, y as int))
            } else {
                None::<Pixel>
            },
    {
        proof {
            reveal(PickerContext::store_wf);
        }
        match self.index_of(window_id) {
            None => None,
            Some(k) => {
                proof {
                    lemma_find_entry_props(self@.store, window_id, 0);
                    assert(self@.store[k as int].1 == self.store@[k as int].frame);
                    assert(self.spec_frame_of(window_id) == self.store@[k as int].frame);
                }
                self.store[k].frame.get(x, y)
            },
        }
    }

    /// The cached passthrough buffer of window `w`: the packed form of its
    /// unmodified frame.
    pub fn draw_empty_window(&self, window_id: u64) -> (r: Option<&Vec<u32>>)
        requires
            self.wf(),
        ensures
            r is Some <==> self.has_window(window_id),
            r matches Some(b) ==> b@ == packed_spec(self.spec_frame_of(window_id)),
    {
        proof {
            reveal(PickerContext::store_wf);
        }
        match self.index_of(window_id) {
            None => None,
            Some(k) => {
                proof {
                    lemma_find_entry_props(self@.store, window_id, 0);
                    assert(self@.store[k as int].1 == self.store@[k as int].frame);
                    assert(self.spec_frame_of(window_id) == self.store@[k as int].frame);
                }
                Some(&self.store[k].cached)
            },
        }
    }

    /// Composites the magnifier for window `w` with the cursor at
    /// `(x, y)` and returns the packed buffer to present.  Returns `None`
    /// when the window is unknown or the crop square around the cursor
    /// does not fit inside the frame; the caller then falls back to the
    /// passthrough buffer.
    pub fn redraw_window(&self, window_id: u64, x: u32, y: u32) -> (r: Option<Vec<u32>>)
        requires
            self.wf(),
        ensures
            r is Some <==> self.has_window(window_id) && crop_in_bounds(
                &self.spec_frame_of(window_id),
                x as int,
                y as int,
                self@.zoom_size as int,
            ),
            r matches Some(buf) ==> buf@ == packed_composed(
                &self.spec_frame_of(window_id),
                x as int,
                y as int,
                self@.zoom_size as int,
                self@.zoom as int,
            ),
    {
        proof {
            reveal(PickerContext::store_wf);
        }
        let k = match self.index_of(window_id) {
            None => {
                return None;
            },
            Some(k) => k,
        };
        proof {
            lemma_find_entry_props(self@.store, window_id, 0);
            assert(self@.store[find_entry(self@.store, window_id, 0)->0].1
                == self.store@[find_entry(self@.store, window_id, 0)->0].frame);
            lemma_mul_bounds(
                self.zoom_size as int,
                self.zoom as int,
                self.policy.size_max as int,
                self.policy.scale_max as int,
            );
        }
        let frame = &self.store[k].frame;
        match magnify(frame, x, y, self.zoom_size, self.zoom) {
            None => None,
            Some(composite) => {
                let buf = composite.packed();
                proof {
                    let f = self.spec_frame_of(window_id);
                    let w = f.spec_width() as int;
                    let h = f.spec_height() as int;
                    assert forall|i: int| 0 <= i < w * h implies buf@[i] == packed_composed(
                        &f,
                        x as int,
                        y as int,
                        self@.zoom_size as int,
                        self@.zoom as int,
                    )[i] by {
                        assert(w > 0) by (nonlinear_arith)
                            requires
                                0 <= i < w * h,
                                w >= 0,
                                h >= 0,
                        ;
                        lemma_linear_split(w, h, i);
                    }
                    assert(buf@ =~= packed_composed(
                        &f,
                        x as int,
                        y as int,
                        self@.zoom_size as int,
                        self@.zoom as int,
                    ));
                }
                Some(buf)
            },
        }
    }

    /// One scroll step of the zoom scale: multiplies or divides it by
    /// twice the scroll magnitude and saturates at the policy bounds.
    pub fn change_zoom(&mut self, negative: bool, units: u32)
        requires
            old(self).wf(),
        ensures
            final(self).wf(),
            final(self)@ == (PickerView {
                zoom: zoom_after_scroll(
                    old(self)@.zoom as int,
                    negative,
                    units as int,
                    old(self)@.policy,
                ) as u32,
                ..old(self)@
            }),
    {
        proof {
            reveal(PickerContext::store_wf);
        }
        if units == 0 {
            return;
        }
        let step: u64 = 2 * (units as u64);
        let candidate: u64 = if negative {
            (self.zoom as u64) / step
        } else {
            proof {
                let zm = self@.policy.scale_max as int;
                let sm = self@.policy.size_max as int;
                assert(zm <= MAX_DIM) by (nonlinear_arith)
                    requires
                        sm * zm + 1 <= MAX_DIM as int,
                        sm >= 1,
                        zm >= 1,
                ;
                lemma_mul_bounds(self@.zoom as int, 2 * (units as int), MAX_DIM as int, 0x2_0000_0000);
            }
            (self.zoom as u64) * step
        };
        self.zoom = if candidate < (self.policy.scale_min as u64) {
            self.policy.scale_min
        } else if candidate > (self.policy.scale_max as u64) {
            self.policy.scale_max
        } else {
            candidate as u32
        };
    }

    /// One scroll step of the zoom window size: grows or shrinks it by
    /// twice the scroll magnitude (keeping it odd) and saturates at the
    /// policy bounds.  Shrinking to at most the visibility threshold hides
    /// the system cursor; growing past the threshold shows it again.
    pub fn change_zoom_size(&mut self, negative: bool, units: u32)
        requires
            old(self).wf(),
        ensures
            final(self).wf(),
            final(self)@ == (PickerView {
                zoom_size: size_after_scroll(
                    old(self)@.zoom_size as int,
                    negative,
                    units as int,
                    old(self)@.policy,
                ) as u32,
                cursor: cursor_after_scroll(
                    size_after_scroll(
                        old(self)@.zoom_size as int,
                        negative,
                        units as int,
                        old(self)@.policy,
                    ),
                    negative,
                    old(self)@.cursor,
                ),
                ..old(self)@
            }),
    {
        proof {
            reveal(PickerContext::store_wf);
        }
        let step_wide: u64 = 2 * (units as u64);
        let step: u32 = if step_wide > (u32::MAX as u64) {
            u32::MAX
        } else {
            step_wide as u32
        };
        proof {
            if step_wide > u32::MAX as u64 {
                assert(old(self)@.zoom_size as int - 2 * (units as int) < old(
                    self,
                )@.policy.size_min);
                assert(old(self)@.zoom_size as int + 2 * (units as int) > old(
                    self,
                )@.policy.size_max);
            }
        }
        if negative {
            let shrunk = if self.zoom_size >= step {
                self.zoom_size - step
            } else {
                0
            };
            self.zoom_size = if shrunk < self.policy.size_min {
                self.policy.size_min
            } else {
                shrunk
            };
            if self.zoom_size <= CURSOR_SIZE_THRESHOLD {
                self.unchecked_cursor_update(false);
            }
        } else {
            let grown: u64 = (self.zoom_size as u64) + (step as u64);
            self.zoom_size = if grown > (self.policy.size_max as u64) {
                self.policy.size_max
            } else {
                grown as u32
            };
            if self.zoom_size > CURSOR_SIZE_THRESHOLD {
                self.unchecked_cursor_update(true);
            }
        }
    }
}

/// The magnifier is visible exactly when one of the persistent toggle and
/// the momentary hold is set, never when both or neither are: the two
/// mechanisms combine exclusively, not additively.
pub proof fn lemma_zoom_display_exclusive(toggle: bool, hold: bool)
    ensures
        zoom_display(toggle, hold) <==> ((toggle || hold) && !(toggle && hold)),
{
}

/// One scroll step never drives the zoom scale or the zoom window size
/// out of the policy bounds, whatever the direction and magnitude, and
/// keeps the window size odd.  Since every event handler preserves these
/// bounds (they are part of well-formedness), an arbitrarily long scroll
/// sequence stays inside them by induction.
pub proof fn lemma_scroll_saturates(zoom: u32, size: u32, negative: bool, units: u32, p: ZoomPolicy)
    requires
        p.wf(),
        p.scale_min <= zoom <= p.scale_max,
        p.size_min <= size <= p.size_max,
        size % 2 == 1,
    ensures
        p.scale_min <= zoom_after_scroll(zoom as int, negative, units as int, p) <= p.scale_max,
        p.size_min <= size_after_scroll(size as int, negative, units as int, p) <= p.size_max,
        size_after_scroll(size as int, negative, units as int, p) % 2 == 1,
{
    assert((size as int - 2 * (units as int)) % 2 == 1) by (nonlinear_arith)
        requires
            size as int % 2 == 1,
            size >= 0,
    ;
    assert((size as int + 2 * (units as int)) % 2 == 1) by (nonlinear_arith)
        requires
            size as int % 2 == 1,
            size >= 0,
            units >= 0,
    ;
}

/// A found entry index points at an entry with the sought identity.
proof fn lemma_find_entry_props(s: Seq<(u64, Frame)>, w: u64, i: int)
    requires
        find_entry(s, w, i) is Some,
    ensures
        ({
            let j = find_entry(s, w, i)->0;
            &&& i <= j < s.len()
            &&& s[j].0 == w
        }),
    decreases s.len() - i,
{
    if 0 <= i < s.len() && s[i].0 != w {
        lemma_find_entry_props(s, w, i + 1);
    }
}

} // verus!
