//! The decisions of the pen note program: what one pen event does to the stroke
//! being drawn, and what a physical key asks for. Reading the devices, the pressure
//! smoothing and the drawing itself are the caller's.

use crate::pen::{PenEvent, Tool};
use vstd::prelude::*;

verus! {

/// Key code that clears the page.
pub const KEY_CLEAR: u16 = 0x02f4;

/// Key code that asks for a full refresh.
pub const KEY_FULL_REFRESH: u16 = 0x02e8;

/// Gray of an ink stroke (black).
pub const INK_GRAY: u8 = 0;

/// Gray of an eraser stroke (white).
pub const ERASE_GRAY: u8 = 255;

/// The stroke state of the note program.
#[derive(Clone, Copy, Debug, PartialEq, Eq)]
pub struct NoteState {
    /// A stroke is being drawn.
    pub drawing: bool,
    /// The last point of the stroke being drawn.
    pub last: Option<(i32, i32)>,
    /// The tool of the last pen event.
    pub tool: Tool,
}

/// What the program draws for one pen event.
#[derive(Clone, Copy, Debug, PartialEq, Eq)]
pub enum NoteAction {
    /// Nothing.
    Idle,
    /// A stroke starts: one disk at `(x, y)`.
    Begin { x: i32, y: i32, gray: u8, eraser: bool },
    /// The stroke goes on: a segment from `from` to `to`.
    Extend { from: (i32, i32), to: (i32, i32), gray: u8, eraser: bool },
    /// The pen lifted: the stroke ends.
    End,
}

/// What a physical key asks for.
#[derive(Clone, Copy, Debug, PartialEq, Eq, Structural)]
pub enum KeyAction {
    Nothing,
    Clear,
    FullRefresh,
}

impl NoteState {
    /// No stroke and no tool yet.
    pub fn new() -> (r: Self)
        ensures
            !r.drawing,
            r.last is None,
            r.tool == Tool::NoTool,
    {
        NoteState { drawing: false, last: None, tool: Tool::NoTool }
    }

    /// A stroke is drawn exactly when it has a last point.
    pub open spec fn wf(self) -> bool {
        self.drawing <==> self.last is Some
    }
}

/// One pen event applied to the stroke state, and what is drawn for it.
///
/// A change of tool ends the stroke. A touch at a known position (`x, y >= 0`)
/// starts a stroke, or extends it from its last point; lifting the tip ends it. The
/// eraser end draws white, any other tool black.
pub open spec fn spec_note_step(s: NoteState, ev: PenEvent) -> (NoteState, NoteAction) {
    let s1 = if ev.tool != s.tool {
        NoteState { drawing: false, last: None, tool: ev.tool }
    } else {
        s
    };
    let eraser = s1.tool == Tool::Eraser;
    let gray = if eraser { ERASE_GRAY } else { INK_GRAY };
    if ev.touch && ev.x >= 0 && ev.y >= 0 {
        if !s1.drawing {
            (
                NoteState { drawing: true, last: Some((ev.x, ev.y)), tool: s1.tool },
                NoteAction::Begin { x: ev.x, y: ev.y, gray, eraser },
            )
        } else {
            match s1.last {
                Some(from) => (
                    NoteState { drawing: true, last: Some((ev.x, ev.y)), tool: s1.tool },
                    NoteAction::Extend { from, to: (ev.x, ev.y), gray, eraser },
                ),
                None => (s1, NoteAction::Idle),
            }
        }
    } else if s1.drawing && !ev.touch {
        (NoteState { drawing: false, last: None, tool: s1.tool }, NoteAction::End)
    } else {
        (s1, NoteAction::Idle)
    }
}

/// Apply one pen event to the stroke state: the new state and what to draw.
pub fn note_step(s: NoteState, ev: PenEvent) -> (r: (NoteState, NoteAction))
    ensures
        r == spec_note_step(s, ev),
{
    let s1 = if ev.tool != s.tool {
        NoteState { drawing: false, last: None, tool: ev.tool }
    } else {
        s
    };
    let eraser = s1.tool == Tool::Eraser;
    let gray = if eraser { ERASE_GRAY } else { INK_GRAY };
    if ev.touch && ev.x >= 0 && ev.y >= 0 {
        if !s1.drawing {
            (
                NoteState { drawing: true, last: Some((ev.x, ev.y)), tool: s1.tool },
                NoteAction::Begin { x: ev.x, y: ev.y, gray, eraser },
            )
        } else {
            match s1.last {
                Some(from) => (
                    NoteState { drawing: true, last: Some((ev.x, ev.y)), tool: s1.tool },
                    NoteAction::Extend { from, to: (ev.x, ev.y), gray, eraser },
                ),
                None => (s1, NoteAction::Idle),
            }
        }
    } else if s1.drawing && !ev.touch {
        (NoteState { drawing: false, last: None, tool: s1.tool }, NoteAction::End)
    } else {
        (s1, NoteAction::Idle)
    }
}

/// What a key event asks for: a press of [`KEY_CLEAR`] clears the page, a press of
/// [`KEY_FULL_REFRESH`] asks for a full refresh; anything else asks for nothing.
pub fn note_key(code: u16, pressed: bool) -> (r: KeyAction)
    ensures
        pressed && code == KEY_CLEAR ==> r == KeyAction::Clear,
        pressed && code == KEY_FULL_REFRESH ==> r == KeyAction::FullRefresh,
        !pressed || (code != KEY_CLEAR && code != KEY_FULL_REFRESH) ==> r == KeyAction::Nothing,
{
    if !pressed {
        KeyAction::Nothing
    } else if code == KEY_CLEAR {
        KeyAction::Clear
    } else if code == KEY_FULL_REFRESH {
        KeyAction::FullRefresh
    } else {
        KeyAction::Nothing
    }
}

/// Every step keeps a stroke drawn exactly when it has a last point, so from
/// [`NoteState::new`] a touch while drawing always extends the stroke.
pub proof fn lemma_note_step_keeps_wf(s: NoteState, ev: PenEvent)
    requires
        s.wf(),
    ensures
        spec_note_step(s, ev).0.wf(),
        spec_note_step(s, ev).0.tool == ev.tool,
        s.drawing && ev.tool == s.tool && ev.touch && ev.x >= 0 && ev.y >= 0
            ==> (spec_note_step(s, ev).1 matches NoteAction::Extend { from, .. } && Some(from) == s.last),
{
}

/// Only the eraser end erases: every stroke begun or extended erases (white, 255)
/// exactly when the event's tool is the eraser, and draws ink (black, 0) with any
/// other tool, none and the finger included. Strokes are drawn only for a touch at a
/// known position, and at that position; a tool change never extends a stroke; a
/// stroke ends exactly when the tip lifts from a stroke of the same tool; nothing is
/// drawn for any other event. Afterwards
/// the state holds the event's tool, a stroke is being drawn after every touch at a
/// known position, and none after a lift.
pub proof fn lemma_note_step_actions(s: NoteState, ev: PenEvent)
    requires
        s.wf(),
    ensures
        ({
            let (n, a) = spec_note_step(s, ev);
            &&& a matches NoteAction::Begin { x, y, gray, eraser } ==> {
                &&& eraser == (ev.tool == Tool::Eraser)
                &&& gray == (if ev.tool == Tool::Eraser { 255u8 } else { 0u8 })
                &&& ev.touch && x == ev.x && y == ev.y && x >= 0 && y >= 0
                &&& (ev.tool != s.tool || !s.drawing)
            }
            &&& a matches NoteAction::Extend { from, to, gray, eraser } ==> {
                &&& eraser == (ev.tool == Tool::Eraser)
                &&& gray == (if ev.tool == Tool::Eraser { 255u8 } else { 0u8 })
                &&& ev.touch && to == (ev.x, ev.y) && ev.x >= 0 && ev.y >= 0
                &&& ev.tool == s.tool && s.drawing && s.last == Some(from)
            }
            &&& a matches NoteAction::End ==> !ev.touch && s.drawing && ev.tool == s.tool
            &&& n.tool == ev.tool
            &&& ev.touch && ev.x >= 0 && ev.y >= 0 ==> n.drawing && n.last == Some((ev.x, ev.y))
            &&& !ev.touch ==> !n.drawing && n.last is None
            &&& ev.touch && ev.x >= 0 && ev.y >= 0 && (ev.tool != s.tool || !s.drawing)
                ==> a is Begin
            &&& ev.touch && ev.x >= 0 && ev.y >= 0 && ev.tool == s.tool && s.drawing
                ==> a is Extend
            &&& !ev.touch && ev.tool == s.tool && s.drawing ==> a is End
            &&& !(ev.touch && ev.x >= 0 && ev.y >= 0) && !(!ev.touch && ev.tool == s.tool && s.drawing)
                ==> a is Idle
        }),
{
}

/// Every action draws at a known position: the points of a begun or extended stroke
/// have no negative coordinate.
pub proof fn lemma_note_points_known(s: NoteState, ev: PenEvent)
    requires
        s.last matches Some(p) ==> p.0 >= 0 && p.1 >= 0,
    ensures
        spec_note_step(s, ev).0.last matches Some(p) ==> p.0 >= 0 && p.1 >= 0,
        spec_note_step(s, ev).1 matches NoteAction::Begin { x, y, .. } ==> x >= 0 && y >= 0,
        spec_note_step(s, ev).1 matches NoteAction::Extend { from, to, .. }
            ==> from.0 >= 0 && from.1 >= 0 && to.0 >= 0 && to.1 >= 0,
{
}

} // verus!
