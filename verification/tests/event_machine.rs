//! Feeding synthetic event sequences through the interaction machine.

use pixel_picker::color::ColorFormat;
use pixel_picker::config::{Args, ZoomPolicy};
use pixel_picker::frame::Frame;
use pixel_picker::machine::{
    MoveDirection, PickerAction, PickerEvent, PickerMachine,
};
use pixel_picker::picker::PickerContext;

fn machine(zoom_on: bool) -> PickerMachine {
    let frame = Frame::solid(100, 100, (10, 20, 30));
    let args = Args {
        zoom: zoom_on,
        scale: 4,
        size: 11,
        format: ColorFormat::Hex,
        disable_color: false,
        disable_clipboard: false,
        exclusive: false,
    };
    let ctx = PickerContext::new(vec![(7, frame)], &args, ZoomPolicy::default())
        .expect("well-formed input");
    PickerMachine::new(ctx)
}

fn moved(window: u64, x: u32, y: u32) -> PickerEvent {
    PickerEvent::CursorMoved { window, x, y }
}

#[test]
fn first_moves_redraw_all_windows() {
    let mut m = machine(true);
    for _ in 0..5 {
        assert!(matches!(m.handle(moved(7, 50, 50)), PickerAction::RedrawAll));
    }
    assert!(matches!(m.handle(moved(7, 50, 50)), PickerAction::Redraw(7)));
}

#[test]
fn moves_without_zoom_request_nothing() {
    let mut m = machine(false);
    assert!(matches!(m.handle(moved(7, 50, 50)), PickerAction::Idle));
}

#[test]
fn confirm_picks_the_color_under_the_cursor() {
    let mut m = machine(false);
    m.handle(moved(7, 50, 50));
    match m.handle(PickerEvent::Confirm) {
        PickerAction::Finish(Some(c)) => assert_eq!(c, (10, 20, 30)),
        other => panic!("expected a finish with a color, got {other:?}"),
    }
}

#[test]
fn confirm_without_position_is_ignored() {
    let mut m = machine(false);
    assert!(matches!(m.handle(PickerEvent::Confirm), PickerAction::Idle));
}

#[test]
fn cancel_finishes_without_color() {
    let mut m = machine(false);
    assert!(matches!(m.handle(PickerEvent::Cancel), PickerAction::Finish(None)));
}

#[test]
fn hold_and_toggle_combine_exclusively() {
    let mut m = machine(false);
    assert!(!m.ctx.should_display_zoom());
    m.handle(PickerEvent::HoldZoomChanged { pressed: true });
    assert!(m.ctx.should_display_zoom());
    m.handle(PickerEvent::ZoomToggled);
    assert!(!m.ctx.should_display_zoom());
    m.handle(PickerEvent::HoldZoomChanged { pressed: false });
    assert!(m.ctx.should_display_zoom());
    m.handle(PickerEvent::ZoomToggled);
    assert!(!m.ctx.should_display_zoom());
}

#[test]
fn scroll_ignored_while_zoom_hidden() {
    let mut m = machine(false);
    let before = m.ctx.zoom();
    assert!(matches!(
        m.handle(PickerEvent::Scroll { negative: false, units: 1 }),
        PickerAction::Idle
    ));
    assert_eq!(m.ctx.zoom(), before);
}

#[test]
fn scroll_adjusts_scale_or_size_by_secondary_hold() {
    let mut m = machine(true);
    m.handle(moved(7, 50, 50));
    m.handle(PickerEvent::Scroll { negative: false, units: 1 });
    assert_eq!(m.ctx.zoom(), 32);
    assert_eq!(m.ctx.zoom_size(), 11);
    m.handle(PickerEvent::SecondaryHoldChanged { pressed: true });
    m.handle(PickerEvent::Scroll { negative: false, units: 1 });
    assert_eq!(m.ctx.zoom(), 32);
    assert_eq!(m.ctx.zoom_size(), 13);
    m.handle(PickerEvent::SecondaryHoldChanged { pressed: false });
    m.handle(PickerEvent::Scroll { negative: true, units: 1 });
    assert_eq!(m.ctx.zoom(), 16);
    assert_eq!(m.ctx.zoom_size(), 13);
}

#[test]
fn nudge_moves_cursor_one_pixel() {
    let mut m = machine(false);
    m.handle(moved(7, 10, 10));
    assert!(matches!(
        m.handle(PickerEvent::Nudge { direction: MoveDirection::Left }),
        PickerAction::Redraw(7)
    ));
    let p = m.position.expect("cursor present");
    assert_eq!((p.x, p.y), (9, 10));
    m.handle(PickerEvent::Nudge { direction: MoveDirection::Down });
    let p = m.position.expect("cursor present");
    assert_eq!((p.x, p.y), (9, 11));
}

#[test]
fn nudge_saturates_at_zero() {
    let mut m = machine(false);
    m.handle(moved(7, 0, 0));
    m.handle(PickerEvent::Nudge { direction: MoveDirection::Left });
    m.handle(PickerEvent::Nudge { direction: MoveDirection::Up });
    let p = m.position.expect("cursor present");
    assert_eq!((p.x, p.y), (0, 0));
}

#[test]
fn nudge_without_position_is_ignored() {
    let mut m = machine(false);
    assert!(matches!(
        m.handle(PickerEvent::Nudge { direction: MoveDirection::Up }),
        PickerAction::Idle
    ));
}

#[test]
fn cursor_leaving_redraws_the_vacated_window() {
    let mut m = machine(false);
    m.handle(moved(7, 50, 50));
    assert!(matches!(m.handle(PickerEvent::CursorLeft), PickerAction::Redraw(7)));
    assert!(m.position.is_none());
    assert!(matches!(m.handle(PickerEvent::CursorLeft), PickerAction::Idle));
}

#[test]
fn redraw_due_draws_passthrough_while_zoom_hidden() {
    let mut m = machine(false);
    m.handle(moved(7, 50, 50));
    match m.handle(PickerEvent::RedrawDue { window: 7 }) {
        PickerAction::Draw { window, width, height, buffer } => {
            assert_eq!(window, 7);
            assert_eq!((width, height), (100, 100));
            assert_eq!(buffer.len(), 100 * 100);
            assert!(buffer.iter().all(|w| *w == 0x0A141E));
        },
        other => panic!("expected a draw, got {other:?}"),
    }
}

#[test]
fn redraw_due_composites_while_zoom_shown() {
    let mut m = machine(true);
    m.handle(moved(7, 50, 50));
    match m.handle(PickerEvent::RedrawDue { window: 7 }) {
        PickerAction::Draw { window, buffer, .. } => {
            assert_eq!(window, 7);
            // The magnified square carries grid words the passthrough
            // buffer never holds.
            assert!(buffer.iter().any(|w| *w == 0xEDEDED));
        },
        other => panic!("expected a draw, got {other:?}"),
    }
}

#[test]
fn redraw_due_near_edge_falls_back_to_passthrough() {
    let mut m = machine(true);
    m.handle(moved(7, 3, 3));
    match m.handle(PickerEvent::RedrawDue { window: 7 }) {
        PickerAction::Draw { buffer, .. } => {
            assert!(buffer.iter().all(|w| *w == 0x0A141E));
        },
        other => panic!("expected a draw, got {other:?}"),
    }
}

#[test]
fn redraw_due_for_unknown_window_is_ignored() {
    let mut m = machine(true);
    assert!(matches!(
        m.handle(PickerEvent::RedrawDue { window: 12 }),
        PickerAction::Idle
    ));
}

/// Sampling is unaffected by a magnifier having been composited.
#[test]
fn sampling_round_trip_survives_magnification() {
    let mut m = machine(true);
    m.handle(moved(7, 50, 50));
    let _ = m.handle(PickerEvent::RedrawDue { window: 7 });
    match m.handle(PickerEvent::Confirm) {
        PickerAction::Finish(Some(c)) => assert_eq!(c, (10, 20, 30)),
        other => panic!("expected a finish with a color, got {other:?}"),
    }
}
