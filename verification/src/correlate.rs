//! The capture correlator.
//!
//! The windowing layer reports monitors in a fixed order; the capture
//! backend delivers one image per monitor, tagged with the screen position
//! it was taken at, in no particular order.  The correlator matches each
//! monitor to the first capture tagged with its position, consuming that
//! capture, and returns the frames in monitor order.  A monitor without a
//! matching capture, or a capture whose decoded dimensions differ from its
//! monitor's reported size, fails the whole session.

use vstd::prelude::*;
use crate::frame::Frame;

verus! {

/// A monitor descriptor as reported by the windowing layer: position of
/// its top-left corner on the desktop, and its size in pixels.
#[derive(Clone, Copy, PartialEq, Eq, Structural, Debug)]
pub struct MonitorInfo {
    pub x: i32,
    pub y: i32,
    pub width: u32,
    pub height: u32,
}

/// A captured screen image tagged with the desktop position it was
/// captured at.
pub struct TaggedCapture {
    pub x: i32,
    pub y: i32,
    pub frame: Frame,
}

/// Why correlation failed.
#[derive(Clone, Copy, PartialEq, Eq, Structural, Debug)]
pub enum CorrelationError {
    /// Some monitor's position has no capture tagged with it.
    MissingCapture,
    /// A capture's decoded dimensions differ from its monitor's size.
    DimensionMismatch,
}

/// Index of the first capture at position `(x, y)` among `caps[i..]`, if
/// any.
pub open spec fn first_capture_from(caps: Seq<TaggedCapture>, x: int, y: int, i: int) -> Option<
    int,
>
    decreases caps.len() - i,
{
    if i < 0 || i >= caps.len() {
        None
    } else if caps[i].x == x && caps[i].y == y {
        Some(i)
    } else {
        first_capture_from(caps, x, y, i + 1)
    }
}

/// Index of the first capture at position `(x, y)`, if any.
pub open spec fn first_capture_at(caps: Seq<TaggedCapture>, x: int, y: int) -> Option<int> {
    first_capture_from(caps, x, y, 0)
}

/// The ordered frames owed for `mons[i..]`, drawing from `caps`; each
/// matched capture is consumed.  The first monitor that has no matching
/// capture, or whose capture has the wrong dimensions, decides the error.
pub open spec fn correlate_from(
    mons: Seq<MonitorInfo>,
    caps: Seq<TaggedCapture>,
    i: int,
) -> Result<Seq<Frame>, CorrelationError>
    decreases mons.len() - i,
{
    if i < 0 || i >= mons.len() {
        Ok(Seq::empty())
    } else {
        match first_capture_at(caps, mons[i].x as int, mons[i].y as int) {
            None => Err(CorrelationError::MissingCapture),
            Some(j) => {
                if caps[j].frame.spec_width() == mons[i].width && caps[j].frame.spec_height()
                    == mons[i].height {
                    match correlate_from(mons, caps.remove(j), i + 1) {
                        Ok(rest) => Ok(seq![caps[j].frame] + rest),
                        Err(e) => Err(e),
                    }
                } else {
                    Err(CorrelationError::DimensionMismatch)
                }
            },
        }
    }
}

/// The frames owed for the whole monitor list, in monitor order.
pub open spec fn correlate_spec(mons: Seq<MonitorInfo>, caps: Seq<TaggedCapture>) -> Result<
    Seq<Frame>,
    CorrelationError,
> {
    correlate_from(mons, caps, 0)
}

/// A found index points at a capture with the sought position.
proof fn lemma_first_capture_props(caps: Seq<TaggedCapture>, x: int, y: int, i: int)
    requires
        first_capture_from(caps, x, y, i) is Some,
    ensures
        ({
            let j = first_capture_from(caps, x, y, i)->0;
            &&& i <= j < caps.len()
            &&& caps[j].x == x
            &&& caps[j].y == y
        }),
    decreases caps.len() - i,
{
    if 0 <= i < caps.len() && !(caps[i].x == x && caps[i].y == y) {
        lemma_first_capture_props(caps, x, y, i + 1);
    }
}

/// Finds the first capture tagged `(x, y)`.
fn find_capture(caps: &Vec<TaggedCapture>, x: i32, y: i32) -> (r: Option<usize>)
    ensures
        r is Some <==> first_capture_at(caps@, x as int, y as int) is Some,
        r matches Some(k) ==> first_capture_at(caps@, x as int, y as int) == Some(k as int),
{
    let n = caps.len();
    let mut k: usize = 0;
    while k < n
        invariant
            k <= n,
            n == caps@.len(),
            first_capture_at(caps@, x as int, y as int) == first_capture_from(
                caps@,
                x as int,
                y as int,
                k as int,
            ),
        decreases n - k,
    {
        if caps[k].x == x && caps[k].y == y {
            return Some(k);
        }
        k = k + 1;
    }
    None
}

/// Matches the captured images to the monitor list and returns the frames
/// in the same order as `monitors`.  Each capture is used at most once.
/// Fails with [`CorrelationError::MissingCapture`] if some monitor position
/// has no matching capture, and with
/// [`CorrelationError::DimensionMismatch`] if a matching capture's decoded
/// dimensions do not equal the monitor's reported size; the first failing
/// monitor decides.
pub fn screenshots_ordered(monitors: &Vec<MonitorInfo>, captures: Vec<TaggedCapture>) -> (r:
    Result<Vec<Frame>, CorrelationError>)
    ensures
        r is Ok <==> correlate_spec(monitors@, captures@) is Ok,
        r matches Ok(frames) ==> frames@ == correlate_spec(monitors@, captures@)->Ok_0,
        r matches Err(e) ==> e == correlate_spec(monitors@, captures@)->Err_0,
{
    let ghost caps0 = captures@;
    let mut caps = captures;
    let mut out: Vec<Frame> = Vec::new();
    let mut failure: Option<CorrelationError> = None;
    let n = monitors.len();
    let mut i: usize = 0;
    while i < n && failure.is_none()
        invariant
            i <= n,
            n == monitors@.len(),
            match failure {
                None => {
                    &&& out@.len() == i as int
                    &&& match correlate_from(monitors@, caps@, i as int) {
                        Ok(rest) => correlate_spec(monitors@, caps0) == Ok::<
                            Seq<Frame>,
                            CorrelationError,
                        >(out@ + rest),
                        Err(e) => correlate_spec(monitors@, caps0) == Err::<
                            Seq<Frame>,
                            CorrelationError,
                        >(e),
                    }
                },
                Some(e) => correlate_spec(monitors@, caps0) == Err::<Seq<Frame>, CorrelationError>(
                    e,
                ),
            },
        decreases n - i,
    {
        let m = monitors[i];
        match find_capture(&caps, m.x, m.y) {
            None => {
                failure = Some(CorrelationError::MissingCapture);
            },
            Some(j) => {
                let ghost caps_before = caps@;
                proof {
                    lemma_first_capture_props(caps@, m.x as int, m.y as int, 0);
                    assert(first_capture_at(caps_before, m.x as int, m.y as int) == Some(
                        j as int,
                    ));
                }
                let cap = caps.remove(j);
                proof {
                    assert(cap == caps_before[j as int]);
                    assert(caps@ == caps_before.remove(j as int));
                }
                if cap.frame.width() != m.width || cap.frame.height() != m.height {
                    failure = Some(CorrelationError::DimensionMismatch);
                    proof {
                        assert(correlate_from(monitors@, caps_before, i as int) == Err::<
                            Seq<Frame>,
                            CorrelationError,
                        >(CorrelationError::DimensionMismatch));
                    }
                } else {
                    let ghost out_before = out@;
                    out.push(cap.frame);
                    proof {
                        let ghost f = caps_before[j as int].frame;
                        let rest_r = correlate_from(monitors@, caps@, i as int + 1);
                        if rest_r is Ok {
                            assert(correlate_from(monitors@, caps_before, i as int) == Ok::<
                                Seq<Frame>,
                                CorrelationError,
                            >(seq![f] + rest_r->Ok_0));
                            assert(out_before + (seq![f] + rest_r->Ok_0) =~= out@ + rest_r->Ok_0);
                        } else {
                            assert(correlate_from(monitors@, caps_before, i as int) == rest_r);
                        }
                    }
                }
            },
        }
        i = i + 1;
    }
    match failure {
        Some(e) => Err(e),
        None => {
            proof {
                assert(out@ + Seq::<Frame>::empty() =~= out@);
            }
            Ok(out)
        },
    }
}

} // verus!
