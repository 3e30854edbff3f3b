//! The interaction state machine.
//!
//! Pointer, keyboard and scroll events become state transitions and redraw
//! requests; the hosting event loop owns dispatch, performs the requested
//! actions and feeds the next event back in.  Redraws are demand-driven:
//! handlers only ask for one, and the composited buffer is produced when
//! the redraw-due event arrives.

use vstd::prelude::*;
use crate::color::Pixel;
use crate::frame::packed_spec;
use crate::magnifier::{crop_in_bounds, packed_composed};
use crate::picker::{
    PickerContext, PickerView, zoom_after_scroll, size_after_scroll, cursor_after_scroll,
};

verus! {

/// How many initial pointer-move events are answered with a full redraw
/// of every window, so a stale initial pointer position reported by the
/// platform cannot leave a magnifier stuck on another window.
pub const STARTUP_MOVES: u32 = 5;

/// Where the pointer is: a position and the overlay window it is over.
#[derive(Clone, Copy, PartialEq, Eq, Structural, Debug)]
pub struct CursorLocation {
    pub x: u32,
    pub y: u32,
    pub window: u64,
}

/// One direction of the movement keys.
#[derive(Clone, Copy, PartialEq, Eq, Structural, Debug)]
pub enum MoveDirection {
    Left,
    Right,
    Up,
    Down,
}

/// An input event, as the hosting loop reports it.
#[derive(Clone, Copy, PartialEq, Eq, Structural, Debug)]
pub enum PickerEvent {
    /// The pointer moved inside a window.
    CursorMoved { window: u64, x: u32, y: u32 },
    /// The pointer left all overlay windows.
    CursorLeft,
    /// Left click or the confirm key: pick the color under the cursor.
    Confirm,
    /// The cancel key or a close request.
    Cancel,
    /// The momentary zoom-hold key was pressed or released.
    HoldZoomChanged { pressed: bool },
    /// The secondary pointer button was pressed or released.
    SecondaryHoldChanged { pressed: bool },
    /// The zoom-toggle modifier was pressed.
    ZoomToggled,
    /// A vertical scroll step of the given magnitude and direction.
    Scroll { negative: bool, units: u32 },
    /// A movement key was pressed.
    Nudge { direction: MoveDirection },
    /// The windowing layer asks for window contents.
    RedrawDue { window: u64 },
}

/// What the hosting loop must do after an event.
#[derive(Debug)]
pub enum PickerAction {
    /// Nothing.
    Idle,
    /// Mark every overlay window as needing a redraw.
    RedrawAll,
    /// Mark one window as needing a redraw.
    Redraw(u64),
    /// Present this packed buffer on the window.
    Draw { window: u64, width: u32, height: u32, buffer: Vec<u32> },
    /// Leave the loop: the picked color, or `None` when cancelled.
    Finish(Option<Pixel>),
}

/// The redraw request aimed at the window under the cursor, if any.
pub open spec fn redraw_target(pos: Option<CursorLocation>) -> PickerAction {
    match pos {
        Some(p) => PickerAction::Redraw(p.window),
        None => PickerAction::Idle,
    }
}

/// What sampling the original frame under the cursor yields.
pub open spec fn sample_spec(ctx: &PickerContext, p: CursorLocation) -> Option<Pixel> {
    if ctx.has_window(p.window) && p.x < ctx.spec_frame_of(p.window).spec_width() && p.y
        < ctx.spec_frame_of(p.window).spec_height() {
        Some(ctx.spec_frame_of(p.window).pixel_spec(p.x as int, p.y as int))
    } else {
        None
    }
}

/// Sampling reads only the stored frames: two picker states with the same
/// frame store sample identically at every cursor location.  Every event
/// handler leaves the frame store untouched, so the color sampled at a
/// position is independent of whether the magnifier was ever displayed.
pub proof fn lemma_sample_reads_only_frames(a: &PickerContext, b: &PickerContext, p: CursorLocation)
    requires
        a@.store == b@.store,
    ensures
        sample_spec(a, p) == sample_spec(b, p),
{
}

/// The cursor location after one movement-key step; coordinates saturate
/// at the ends of their range.
pub open spec fn nudged(p: CursorLocation, d: MoveDirection) -> CursorLocation {
    match d {
        MoveDirection::Left => CursorLocation {
            x: if p.x > 0 {
                (p.x - 1) as u32
            } else {
                0
            },
            ..p
        },
        MoveDirection::Right => CursorLocation {
            x: if p.x < u32::MAX {
                (p.x + 1) as u32
            } else {
                u32::MAX
            },
            ..p
        },
        MoveDirection::Up => CursorLocation {
            y: if p.y > 0 {
                (p.y - 1) as u32
            } else {
                0
            },
            ..p
        },
        MoveDirection::Down => CursorLocation {
            y: if p.y < u32::MAX {
                (p.y + 1) as u32
            } else {
                u32::MAX
            },
            ..p
        },
    }
}

/// Whether the redraw-due answer for `window` composites the magnifier:
/// the zoom is displayed, the cursor is over this very window, and the
/// crop square fits inside its frame.
pub open spec fn magnifier_drawn(
    ctx: &PickerContext,
    pos: Option<CursorLocation>,
    window: u64,
) -> bool {
    &&& ctx.spec_should_display_zoom()
    &&& pos matches Some(p) && p.window == window && crop_in_bounds(
        &ctx.spec_frame_of(window),
        p.x as int,
        p.y as int,
        ctx@.zoom_size as int,
    )
}

/// The single-threaded event dispatcher: the picker context plus the
/// cursor location and the count of initial pointer moves.
pub struct PickerMachine {
    /// The frame store and zoom state.
    pub ctx: PickerContext,
    /// The pointer's last known place, `None` outside all overlays.
    pub position: Option<CursorLocation>,
    /// Pointer-move events seen so far, counted up to `STARTUP_MOVES`.
    pub mouse_events: u32,
}

impl PickerMachine {
    /// A machine over a freshly built picker context: no pointer seen
    /// yet.
    pub fn new(ctx: PickerContext) -> (r: PickerMachine)
        ensures
            r.ctx == ctx,
            r.position is None,
            r.mouse_events == 0,
    {
        PickerMachine { ctx, position: None, mouse_events: 0 }
    }

    /// Copies a packed buffer.
    fn copy_words(v: &Vec<u32>) -> (r: Vec<u32>)
        ensures
            r@ == v@,
    {
        let n = v.len();
        let mut out: Vec<u32> = Vec::new();
        let mut k: usize = 0;
        while k < n
            invariant
                k <= n,
                n == v@.len(),
                out@ == v@.subrange(0, k as int),
            decreases n - k,
        {
            out.push(v[k]);
            proof {
                assert(out@ =~= v@.subrange(0, k as int + 1));
            }
            k = k + 1;
        }
        proof {
            assert(out@ =~= v@);
        }
        out
    }

    /// The packed buffer owed for a redraw-due event on `window`: the
    /// magnifier composite when one is drawn, else the cached passthrough
    /// buffer; `Idle` for a window the picker does not know.
    fn render(&self, window: u64) -> (r: PickerAction)
        requires
            self.ctx.wf(),
        ensures
            self.ctx.has_window(window) ==> (r matches PickerAction::Draw {
                window: w,
                width,
                height,
                buffer,
            } && w == window && width == self.ctx.spec_frame_of(window).spec_width() && height
                == self.ctx.spec_frame_of(window).spec_height() && buffer@ == (
            if magnifier_drawn(&self.ctx, self.position, window) {
                packed_composed(
                    &self.ctx.spec_frame_of(window),
                    self.position->0.x as int,
                    self.position->0.y as int,
                    self.ctx@.zoom_size as int,
                    self.ctx@.zoom as int,
                )
            } else {
                packed_spec(self.ctx.spec_frame_of(window))
            })),
            !self.ctx.has_window(window) ==> r is Idle,
    {
        let dims = match self.ctx.window_size(window) {
            None => {
                return PickerAction::Idle;
            },
            Some(d) => d,
        };
        if self.ctx.should_display_zoom() {
            if let Some(p) = self.position {
                if p.window == window {
                    if let Some(buffer) = self.ctx.redraw_window(window, p.x, p.y) {
                        return PickerAction::Draw {
                            window,
                            width: dims.0,
                            height: dims.1,
                            buffer,
                        };
                    }
                }
            }
        }
        let cached = match self.ctx.draw_empty_window(window) {
            None => {
                return PickerAction::Idle;
            },
            Some(b) => b,
        };
        PickerAction::Draw {
            window,
            width: dims.0,
            height: dims.1,
            buffer: Self::copy_words(cached),
        }
    }

    /// Dispatches one input event: updates the state and says what the
    /// hosting loop must do.  The frames and the clamping policy never
    /// change; the zoom state only moves inside the policy bounds.
    pub fn handle(&mut self, event: PickerEvent) -> (r: PickerAction)
        requires
            old(self).ctx.wf(),
        ensures
            final(self).ctx.wf(),
            final(self).ctx@.store == old(self).ctx@.store,
            final(self).ctx@.policy == old(self).ctx@.policy,
            match event {
                PickerEvent::CursorMoved { window, x, y } => {
                    &&& final(self).ctx@ == old(self).ctx@
                    &&& final(self).position == Some(CursorLocation { x, y, window })
                    &&& final(self).mouse_events == (if old(self).mouse_events < STARTUP_MOVES {
                        old(self).mouse_events + 1
                    } else {
                        old(self).mouse_events as int
                    })
                    &&& r == (if old(self).ctx.spec_should_display_zoom() {
                        if old(self).mouse_events < STARTUP_MOVES {
                            PickerAction::RedrawAll
                        } else {
                            PickerAction::Redraw(window)
                        }
                    } else {
                        PickerAction::Idle
                    })
                },
                PickerEvent::CursorLeft => {
                    &&& final(self).ctx@ == old(self).ctx@
                    &&& final(self).position is None
                    &&& final(self).mouse_events == old(self).mouse_events
                    &&& r == redraw_target(old(self).position)
                },
                PickerEvent::Confirm => {
                    &&& final(self).ctx@ == old(self).ctx@
                    &&& final(self).position == old(self).position
                    &&& final(self).mouse_events == old(self).mouse_events
                    &&& r == (match old(self).position {
                        Some(p) => match sample_spec(&old(self).ctx, p) {
                            Some(c) => PickerAction::Finish(Some(c)),
                            None => PickerAction::Idle,
                        },
                        None => PickerAction::Idle,
                    })
                },
                PickerEvent::Cancel => {
                    &&& final(self).ctx@ == old(self).ctx@
                    &&& final(self).position == old(self).position
                    &&& final(self).mouse_events == old(self).mouse_events
                    &&& r == PickerAction::Finish(None)
                },
                PickerEvent::HoldZoomChanged { pressed } => {
                    &&& final(self).ctx@ == (PickerView { hold_zoom: pressed, ..old(self).ctx@ })
                    &&& final(self).position == old(self).position
                    &&& final(self).mouse_events == old(self).mouse_events
                    &&& r == redraw_target(old(self).position)
                },
                PickerEvent::SecondaryHoldChanged { pressed } => {
                    &&& final(self).ctx@ == (PickerView {
                        hold_right_click: pressed,
                        ..old(self).ctx@
                    })
                    &&& final(self).position == old(self).position
                    &&& final(self).mouse_events == old(self).mouse_events
                    &&& r == PickerAction::Idle
                },
                PickerEvent::ZoomToggled => {
                    &&& final(self).ctx@ == (PickerView {
                        toggle_zoom: !old(self).ctx@.toggle_zoom,
                        ..old(self).ctx@
                    })
                    &&& final(self).position == old(self).position
                    &&& final(self).mouse_events == old(self).mouse_events
                    &&& r == redraw_target(old(self).position)
                },
                PickerEvent::Scroll { negative, units } => {
                    &&& final(self).position == old(self).position
                    &&& final(self).mouse_events == old(self).mouse_events
                    &&& if old(self).ctx.spec_should_display_zoom() {
                        &&& final(self).ctx@ == (if old(self).ctx@.hold_right_click {
                            PickerView {
                                zoom_size: size_after_scroll(
                                    old(self).ctx@.zoom_size as int,
                                    negative,
                                    units as int,
                                    old(self).ctx@.policy,
                                ) as u32,
                                cursor: cursor_after_scroll(
                                    size_after_scroll(
                                        old(self).ctx@.zoom_size as int,
                                        negative,
                                        units as int,
                                        old(self).ctx@.policy,
                                    ),
                                    negative,
                                    old(self).ctx@.cursor,
                                ),
                                ..old(self).ctx@
                            }
                        } else {
                            PickerView {
                                zoom: zoom_after_scroll(
                                    old(self).ctx@.zoom as int,
                                    negative,
                                    units as int,
                                    old(self).ctx@.policy,
                                ) as u32,
                                ..old(self).ctx@
                            }
                        })
                        &&& r == redraw_target(old(self).position)
                    } else {
                        &&& final(self).ctx@ == old(self).ctx@
                        &&& r == PickerAction::Idle
                    }
                },
                PickerEvent::Nudge { direction } => {
                    &&& final(self).ctx@ == old(self).ctx@
                    &&& final(self).mouse_events == old(self).mouse_events
                    &&& match old(self).position {
                        Some(p) => {
                            &&& final(self).position == Some(nudged(p, direction))
                            &&& r == PickerAction::Redraw(p.window)
                        },
                        None => {
                            &&& final(self).position == old(self).position
                            &&& r == PickerAction::Idle
                        },
                    }
                },
                PickerEvent::RedrawDue { window } => {
                    &&& final(self).ctx@ == old(self).ctx@
                    &&& final(self).position == old(self).position
                    &&& final(self).mouse_events == old(self).mouse_events
                    &&& old(self).ctx.has_window(window) ==> (r matches PickerAction::Draw {
                        window: w,
                        width,
                        height,
                        buffer,
                    } && w == window && width == old(self).ctx.spec_frame_of(
                        window,
                    ).spec_width() && height == old(self).ctx.spec_frame_of(window).spec_height()
                        && buffer@ == (if magnifier_drawn(
                        &old(self).ctx,
                        old(self).position,
                        window,
                    ) {
                        packed_composed(
                            &old(self).ctx.spec_frame_of(window),
                            old(self).position->0.x as int,
                            old(self).position->0.y as int,
                            old(self).ctx@.zoom_size as int,
                            old(self).ctx@.zoom as int,
                        )
                    } else {
                        packed_spec(old(self).ctx.spec_frame_of(window))
                    }))
                    &&& !old(self).ctx.has_window(window) ==> r is Idle
                },
            },
    {
        match event {
            PickerEvent::CursorMoved { window, x, y } => {
                let early = self.mouse_events < STARTUP_MOVES;
                if early {
                    self.mouse_events = self.mouse_events + 1;
                }
                self.position = Some(CursorLocation { x, y, window });
                if self.ctx.should_display_zoom() {
                    if early {
                        PickerAction::RedrawAll
                    } else {
                        PickerAction::Redraw(window)
                    }
                } else {
                    PickerAction::Idle
                }
            },
            PickerEvent::CursorLeft => {
                let r = match self.position {
                    Some(p) => PickerAction::Redraw(p.window),
                    None => PickerAction::Idle,
                };
                self.position = None;
                r
            },
            PickerEvent::Confirm => {
                match self.position {
                    Some(p) => match self.ctx.get_pixel(p.window, p.x, p.y) {
                        Some(c) => PickerAction::Finish(Some(c)),
                        None => PickerAction::Idle,
                    },
                    None => PickerAction::Idle,
                }
            },
            PickerEvent::Cancel => PickerAction::Finish(None),
            PickerEvent::HoldZoomChanged { pressed } => {
                self.ctx.set_hold_zoom(pressed);
                match self.position {
                    Some(p) => PickerAction::Redraw(p.window),
                    None => PickerAction::Idle,
                }
            },
            PickerEvent::SecondaryHoldChanged { pressed } => {
                self.ctx.set_hold_right_click(pressed);
                PickerAction::Idle
            },
            PickerEvent::ZoomToggled => {
                self.ctx.flip_toggle_zoom();
                match self.position {
                    Some(p) => PickerAction::Redraw(p.window),
                    None => PickerAction::Idle,
                }
            },
            PickerEvent::Scroll { negative, units } => {
                if self.ctx.should_display_zoom() {
                    if self.ctx.hold_right_click() {
                        self.ctx.change_zoom_size(negative, units);
                    } else {
                        self.ctx.change_zoom(negative, units);
                    }
                    match self.position {
                        Some(p) => PickerAction::Redraw(p.window),
                        None => PickerAction::Idle,
                    }
                } else {
                    PickerAction::Idle
                }
            },
            PickerEvent::Nudge { direction } => {
                match self.position {
                    None => PickerAction::Idle,
                    Some(p) => {
                        let moved = match direction {
                            MoveDirection::Left => CursorLocation {
                                x: if p.x > 0 {
                                    p.x - 1
                                } else {
                                    0
                                },
                                ..p
                            },
                            MoveDirection::Right => CursorLocation {
                                x: if p.x < u32::MAX {
                                    p.x + 1
                                } else {
                                    u32::MAX
                                },
                                ..p
                            },
                            MoveDirection::Up => CursorLocation {
                                y: if p.y > 0 {
                                    p.y - 1
                                } else {
                                    0
                                },
                                ..p
                            },
                            MoveDirection::Down => CursorLocation {
                                y: if p.y < u32::MAX {
                                    p.y + 1
                                } else {
                                    u32::MAX
                                },
                                ..p
                            },
                        };
                        self.position = Some(moved);
                        PickerAction::Redraw(p.window)
                    },
                }
            },
            PickerEvent::RedrawDue { window } => self.render(window),
        }
    }
}

} // verus!
