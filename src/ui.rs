//! The editor's application state, and what it does with each input event.
use vstd::prelude::*;
use crate::input::{
    InputState, KEY_ARROW_DOWN, KEY_ARROW_LEFT, KEY_ARROW_RIGHT, KEY_ARROW_UP, KEY_DELETE, KEY_MENU,
    Keys, MouseEventKind,
};
use crate::gesture::Gesture;
use crate::tree::Tree;

verus! {

/// A resolved mouse event together with the keys held before and after it.
#[derive(Clone, Copy, Debug, PartialEq, Eq, Structural)]
pub struct InputEvent {
    pub mouse_event: MouseEventKind,
    pub keys_lately: Keys,
    pub keys: Keys,
}

/// What the editor does in answer to an event. Every answer but `Ignore`
/// is followed by a redraw.
#[derive(Clone, Copy, Debug, PartialEq, Eq, Structural)]
pub enum UiAction {
    /// A plain click.
    Click,
    /// A click while the delete key is held.
    DeleteClick,
    /// Pan the view by the event's pointer delta.
    DragView,
    /// A drag ended.
    EndDrag,
    MenuOpened,
    MenuClosed,
    /// Pan the view by the given number of arrow-key steps along each axis.
    Pan { x: i64, y: i64 },
    /// Nothing to do, nothing to redraw.
    Ignore,
}

/// The key `k` went down with this event.
pub open spec fn pressed(e: InputEvent, k: u64) -> bool {
    !e.keys_lately.has(Keys { bits: k }) && e.keys.has(Keys { bits: k })
}

/// The key `k` was down before and still is.
pub open spec fn pressing(e: InputEvent, k: u64) -> bool {
    e.keys_lately.has(Keys { bits: k }) && e.keys.has(Keys { bits: k })
}

/// The key `k` went up with this event.
pub open spec fn released(e: InputEvent, k: u64) -> bool {
    e.keys_lately.has(Keys { bits: k }) && !e.keys.has(Keys { bits: k })
}

/// The key `k` is down now.
pub open spec fn down(e: InputEvent, k: u64) -> bool {
    pressing(e, k) || pressed(e, k)
}

/// 1 when `b` holds, else 0.
pub open spec fn unit(b: bool) -> int {
    if b {
        1
    } else {
        0
    }
}

/// The answer to event `e`. Mouse gestures count only with no key held; a
/// delete click needs the delete key held since before the click; then the
/// menu key; then the arrow keys, which pan the view.
pub open spec fn action_of(e: InputEvent) -> UiAction {
    let no_keys = e.keys.bits == 0;
    if e.mouse_event == MouseEventKind::Click && no_keys {
        UiAction::Click
    } else if e.mouse_event == MouseEventKind::Click && pressing(e, KEY_DELETE) {
        UiAction::DeleteClick
    } else if e.mouse_event == MouseEventKind::StartDrag && no_keys {
        UiAction::DragView
    } else if e.mouse_event == MouseEventKind::EndDrag && no_keys {
        UiAction::EndDrag
    } else if e.mouse_event == MouseEventKind::Drag && no_keys {
        UiAction::DragView
    } else if pressed(e, KEY_MENU) {
        UiAction::MenuOpened
    } else if released(e, KEY_MENU) {
        UiAction::MenuClosed
    } else if down(e, KEY_ARROW_DOWN) || down(e, KEY_ARROW_RIGHT) || down(e, KEY_ARROW_LEFT) || down(
        e,
        KEY_ARROW_UP,
    ) {
        UiAction::Pan {
            x: (unit(down(e, KEY_ARROW_LEFT)) - unit(down(e, KEY_ARROW_RIGHT))) as i64,
            y: (unit(down(e, KEY_ARROW_UP)) - unit(down(e, KEY_ARROW_DOWN))) as i64,
        }
    } else {
        UiAction::Ignore
    }
}

/// The editor's state: the node graph, the input state, and the pointer
/// gesture in progress.
pub struct Ui {
    pub tree: Tree,
    pub input: InputState,
    pub gesture: Gesture,
}

/// A fresh editor: an empty graph, no input.
pub fn ui() -> (r: Ui)
    ensures
        r.tree.wf(),
        r.tree.node_seq().len() == 0,
        r.tree.link_seq().len() == 0,
        r.input == InputState::new_spec(),
        r.gesture == Gesture::Idle,
{
    Ui { tree: Tree::new(), input: InputState::new(), gesture: Gesture::Idle }
}

impl Ui {
    /// The answer to `event`.
    pub fn action_for(event: &InputEvent) -> (r: UiAction)
        ensures
            r == action_of(*event),
    {
        let pressed = |k: u64| -> (r: bool)
            ensures
                r == pressed(*event, k),
            { !event.keys_lately.contains(Keys::from_bits(k)) && event.keys.contains(Keys::from_bits(k)) };
        let pressing = |k: u64| -> (r: bool)
            ensures
                r == pressing(*event, k),
            { event.keys_lately.contains(Keys::from_bits(k)) && event.keys.contains(Keys::from_bits(k)) };
        let released = |k: u64| -> (r: bool)
            ensures
                r == released(*event, k),
            { event.keys_lately.contains(Keys::from_bits(k)) && !event.keys.contains(Keys::from_bits(k)) };
        let down = |k: u64| -> (r: bool)
            ensures
                r == down(*event, k),
            { event.keys.contains(Keys::from_bits(k)) };
        let no_keys = event.keys.is_empty();
        match event.mouse_event {
            MouseEventKind::Click if no_keys => {
                return UiAction::Click;
            },
            MouseEventKind::Click if pressing(KEY_DELETE) => {
                return UiAction::DeleteClick;
            },
            MouseEventKind::StartDrag if no_keys => {
                return UiAction::DragView;
            },
            MouseEventKind::EndDrag if no_keys => {
                return UiAction::EndDrag;
            },
            MouseEventKind::Drag if no_keys => {
                return UiAction::DragView;
            },
            _ => {},
        }
        if pressed(KEY_MENU) {
            UiAction::MenuOpened
        } else if released(KEY_MENU) {
            UiAction::MenuClosed
        } else if down(KEY_ARROW_DOWN) || down(KEY_ARROW_RIGHT) || down(KEY_ARROW_LEFT) || down(
            KEY_ARROW_UP,
        ) {
            let mut x: i64 = 0;
            let mut y: i64 = 0;
            if down(KEY_ARROW_DOWN) {
                y -= 1;
            }
            if down(KEY_ARROW_UP) {
                y += 1;
            }
            if down(KEY_ARROW_RIGHT) {
                x -= 1;
            }
            if down(KEY_ARROW_LEFT) {
                x += 1;
            }
            UiAction::Pan { x, y }
        } else {
            UiAction::Ignore
        }
    }
}

} // verus!
