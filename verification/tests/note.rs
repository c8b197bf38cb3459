use hweink::note::{note_key, note_step, KeyAction, NoteAction, NoteState};
use hweink::pen::{PenEvent, Tool};

fn ev(x: i32, y: i32, touch: bool, tool: Tool) -> PenEvent {
    PenEvent { x, y, pressure: 300, tool, in_proximity: true, touch, ..PenEvent::default() }
}

#[test]
fn note_stroke_begins_extends_and_ends() {
    let s = NoteState::new();
    let (s, a) = note_step(s, ev(10, 20, false, Tool::Pen));
    assert_eq!(a, NoteAction::Idle);
    assert_eq!(s, NoteState { drawing: false, last: None, tool: Tool::Pen });
    let (s, a) = note_step(s, ev(10, 20, true, Tool::Pen));
    assert_eq!(a, NoteAction::Begin { x: 10, y: 20, gray: 0, eraser: false });
    let (s, a) = note_step(s, ev(12, 25, true, Tool::Pen));
    assert_eq!(a, NoteAction::Extend { from: (10, 20), to: (12, 25), gray: 0, eraser: false });
    assert_eq!(s.last, Some((12, 25)));
    let (s, a) = note_step(s, ev(12, 25, false, Tool::Pen));
    assert_eq!(a, NoteAction::End);
    assert_eq!(s, NoteState { drawing: false, last: None, tool: Tool::Pen });
    let (_, a) = note_step(s, ev(12, 25, false, Tool::Pen));
    assert_eq!(a, NoteAction::Idle);
}

#[test]
fn note_eraser_draws_white_and_tool_change_ends_stroke() {
    let s = NoteState::new();
    let (s, _) = note_step(s, ev(5, 5, true, Tool::Pen));
    assert!(s.drawing);
    let (s, a) = note_step(s, ev(40, 50, true, Tool::Eraser));
    assert_eq!(a, NoteAction::Begin { x: 40, y: 50, gray: 255, eraser: true });
    assert_eq!(s.tool, Tool::Eraser);
    let (s, a) = note_step(s, ev(41, 50, true, Tool::Eraser));
    assert_eq!(a, NoteAction::Extend { from: (40, 50), to: (41, 50), gray: 255, eraser: true });
    let (s, a) = note_step(s, ev(41, 50, false, Tool::NoTool));
    assert_eq!(a, NoteAction::Idle);
    assert_eq!(s, NoteState { drawing: false, last: None, tool: Tool::NoTool });
}

#[test]
fn note_touch_without_position_draws_nothing() {
    let s = NoteState::new();
    let (s, a) = note_step(s, ev(-1, -1, true, Tool::Pen));
    assert_eq!(a, NoteAction::Idle);
    assert!(!s.drawing);
    let (s, _) = note_step(s, ev(3, 4, true, Tool::Pen));
    let (s, a) = note_step(s, ev(-1, 4, true, Tool::Pen));
    assert_eq!(a, NoteAction::Idle);
    assert_eq!(s.last, Some((3, 4)));
}

#[test]
fn note_keys() {
    assert_eq!(note_key(0x2f4, true), KeyAction::Clear);
    assert_eq!(note_key(0x2e8, true), KeyAction::FullRefresh);
    assert_eq!(note_key(0x2f4, false), KeyAction::Nothing);
    assert_eq!(note_key(0x2e8, false), KeyAction::Nothing);
    assert_eq!(note_key(0x100, true), KeyAction::Nothing);
}
