//! Pointer and keyboard input: the state that raw events update, and the
//! semantic mouse event that it resolves to.
//!
//! Positions and distances stay with the caller; this state keeps only the
//! decisions that they lead to (whether the pointer has moved past the drag
//! threshold since the button went down, whether the wheel moved).
use vstd::prelude::*;
use crate::text::str_eq;

verus! {

pub const KEY_DELETE: u64 = 0b0000_0000_0000_0001;
pub const KEY_MENU: u64 = 0b0000_0000_0000_0010;
pub const KEY_ARROW_LEFT: u64 = 0b0000_0000_0000_0100;
pub const KEY_ARROW_RIGHT: u64 = 0b0000_0000_0000_1000;
pub const KEY_ARROW_UP: u64 = 0b0000_0000_0001_0000;
pub const KEY_ARROW_DOWN: u64 = 0b0000_0000_0010_0000;
pub const KEY_SHIFT: u64 = 0b0000_0000_0100_0000;
pub const KEY_CTRL: u64 = 0b0000_0000_1000_0000;
pub const KEY_ALT: u64 = 0b0000_0001_0000_0000;

/// A set of modifier keys, one bit per key.
#[derive(Clone, Copy, Debug, PartialEq, Eq, Structural)]
pub struct Keys {
    pub bits: u64,
}

impl Keys {
    /// Whether every key of `other` is in `self`.
    pub open spec fn has(self, other: Keys) -> bool {
        self.bits & other.bits == other.bits
    }

    pub fn empty() -> (r: Keys)
        ensures
            r.bits == 0,
    {
        Keys { bits: 0 }
    }

    pub fn from_bits(bits: u64) -> (r: Keys)
        ensures
            r.bits == bits,
    {
        Keys { bits }
    }

    pub fn is_empty(&self) -> (r: bool)
        ensures
            r == (self.bits == 0),
    {
        self.bits == 0
    }

    pub fn contains(&self, other: Keys) -> (r: bool)
        ensures
            r == self.has(other),
    {
        self.bits & other.bits == other.bits
    }

    pub fn insert(&mut self, other: Keys)
        ensures
            final(self).bits == old(self).bits | other.bits,
    {
        self.bits = self.bits | other.bits;
    }

    pub fn remove(&mut self, other: Keys)
        ensures
            final(self).bits == old(self).bits & !other.bits,
    {
        self.bits = self.bits & !other.bits;
    }
}

/// The key that a keyboard code names, if it is one that input tracks.
pub open spec fn key_of_code(code: Seq<char>) -> Option<Keys> {
    if code == "KeyX"@ {
        Some(Keys { bits: KEY_DELETE })
    } else if code == "Space"@ {
        Some(Keys { bits: KEY_MENU })
    } else if code == "Shift"@ {
        Some(Keys { bits: KEY_SHIFT })
    } else if code == "Ctrl"@ {
        Some(Keys { bits: KEY_CTRL })
    } else if code == "Alt"@ {
        Some(Keys { bits: KEY_ALT })
    } else if code == "ArrowDown"@ {
        Some(Keys { bits: KEY_ARROW_DOWN })
    } else if code == "ArrowLeft"@ {
        Some(Keys { bits: KEY_ARROW_LEFT })
    } else if code == "ArrowUp"@ {
        Some(Keys { bits: KEY_ARROW_UP })
    } else if code == "ArrowRight"@ {
        Some(Keys { bits: KEY_ARROW_RIGHT })
    } else {
        None
    }
}

/// The key that a keyboard code names, if it is one that input tracks.
pub fn key_code_from_str(code: &str) -> (r: Option<Keys>)
    ensures
        r == key_of_code(code@),
{
    if str_eq(code, "KeyX") {
        Some(Keys { bits: KEY_DELETE })
    } else if str_eq(code, "Space") {
        Some(Keys { bits: KEY_MENU })
    } else if str_eq(code, "Shift") {
        Some(Keys { bits: KEY_SHIFT })
    } else if str_eq(code, "Ctrl") {
        Some(Keys { bits: KEY_CTRL })
    } else if str_eq(code, "Alt") {
        Some(Keys { bits: KEY_ALT })
    } else if str_eq(code, "ArrowDown") {
        Some(Keys { bits: KEY_ARROW_DOWN })
    } else if str_eq(code, "ArrowLeft") {
        Some(Keys { bits: KEY_ARROW_LEFT })
    } else if str_eq(code, "ArrowUp") {
        Some(Keys { bits: KEY_ARROW_UP })
    } else if str_eq(code, "ArrowRight") {
        Some(Keys { bits: KEY_ARROW_RIGHT })
    } else {
        None
    }
}

/// The semantic mouse event that the current input state stands for. The
/// caller attaches the positions and deltas that it keeps.
#[derive(Clone, Copy, Debug, PartialEq, Eq, Structural)]
pub enum MouseEventKind {
    Click,
    StartDrag,
    Drag,
    EndDrag,
    Wheel,
    Nothing,
}

/// Input state: each flag as it is now, and as it was before the last raw event.
#[derive(Clone, Copy, Debug, PartialEq, Eq, Structural)]
pub struct InputState {
    pub dragging_lately: bool,
    pub dragging_now: bool,
    pub mouse_down_lately: bool,
    pub mouse_down: bool,
    /// The pointer has moved past the drag threshold since the button went down.
    pub moved_far: bool,
    /// The last raw event was a wheel turn.
    pub wheel_moved: bool,
    pub keys_lately: Keys,
    pub keys: Keys,
}

/// `s` with the current flags copied to the earlier ones, and the wheel at rest.
pub open spec fn shifted(s: InputState) -> InputState {
    InputState {
        keys_lately: s.keys,
        mouse_down_lately: s.mouse_down,
        dragging_lately: s.dragging_now,
        wheel_moved: false,
        ..s
    }
}

/// The mouse event of state `s`: a wheel turn first, then a drag in
/// progress, a drag that starts, a drag that ends, and a button release
/// close to where it went down.
pub open spec fn mouse_event_of(s: InputState) -> MouseEventKind {
    if s.wheel_moved {
        MouseEventKind::Wheel
    } else if s.dragging_lately && s.dragging_now {
        MouseEventKind::Drag
    } else if !s.dragging_lately && s.dragging_now {
        MouseEventKind::StartDrag
    } else if s.dragging_lately && !s.dragging_now {
        MouseEventKind::EndDrag
    } else if !s.mouse_down && s.mouse_down_lately && !s.moved_far {
        MouseEventKind::Click
    } else {
        MouseEventKind::Nothing
    }
}

impl Default for InputState {
    fn default() -> (r: InputState)
        ensures
            r == InputState::new_spec(),
    {
        InputState::new()
    }
}

impl InputState {
    /// Nothing pressed, nothing moving.
    pub open spec fn new_spec() -> InputState {
        InputState {
            dragging_lately: false,
            dragging_now: false,
            mouse_down_lately: false,
            mouse_down: false,
            moved_far: false,
            wheel_moved: false,
            keys_lately: Keys { bits: 0 },
            keys: Keys { bits: 0 },
        }
    }

    /// Nothing pressed, nothing moving.
    pub fn new() -> (r: InputState)
        ensures
            r == InputState::new_spec(),
    {
        InputState {
            dragging_lately: false,
            dragging_now: false,
            mouse_down_lately: false,
            mouse_down: false,
            moved_far: false,
            wheel_moved: false,
            keys_lately: Keys::empty(),
            keys: Keys::empty(),
        }
    }

    fn update(&mut self)
        ensures
            *final(self) == shifted(*old(self)),
    {
        self.keys_lately = self.keys;
        self.mouse_down_lately = self.mouse_down;
        self.dragging_lately = self.dragging_now;
        self.wheel_moved = false;
    }

    /// The button went down.
    pub fn on_mouse_down(&mut self)
        ensures
            *final(self) == (InputState { mouse_down: true, moved_far: false, ..shifted(*old(self)) }),
    {
        self.update();
        self.mouse_down = true;
        self.moved_far = false;
    }

    /// The button went up.
    pub fn on_mouse_up(&mut self)
        ensures
            *final(self) == (InputState {
                mouse_down: false,
                dragging_now: false,
                ..shifted(*old(self))
            }),
    {
        self.update();
        self.mouse_down = false;
        self.dragging_now = false;
    }

    /// The pointer moved; `moved_far` tells whether, counted from where the
    /// button went down, it is now past the drag threshold. With the button
    /// up the distance is not tracked and a drag stops.
    pub fn on_mouse_move(&mut self, moved_far: bool)
        ensures
            *final(self) == if old(self).mouse_down {
                InputState {
                    moved_far,
                    dragging_now: moved_far || old(self).dragging_now,
                    ..shifted(*old(self))
                }
            } else {
                InputState { dragging_now: false, ..shifted(*old(self)) }
            },
    {
        self.update();
        if self.mouse_down {
            self.moved_far = moved_far;
            if moved_far {
                self.dragging_now = true;
            }
        } else {
            self.dragging_now = false;
        }
    }

    /// The wheel turned; `moved` is false for a turn of zero.
    pub fn on_wheel(&mut self, moved: bool)
        ensures
            *final(self) == (InputState { wheel_moved: moved, ..shifted(*old(self)) }),
    {
        self.update();
        self.wheel_moved = moved;
    }

    /// A key went down; codes that name no tracked key change only the
    /// earlier flags.
    pub fn on_key_down(&mut self, code: &str)
        ensures
            *final(self) == match key_of_code(code@) {
                Some(k) => InputState {
                    keys: Keys { bits: old(self).keys.bits | k.bits },
                    ..shifted(*old(self))
                },
                None => shifted(*old(self)),
            },
    {
        self.update();
        match key_code_from_str(code) {
            Some(k) => self.keys.insert(k),
            None => {},
        }
    }

    /// A key went up.
    pub fn on_key_up(&mut self, code: &str)
        ensures
            *final(self) == match key_of_code(code@) {
                Some(k) => InputState {
                    keys: Keys { bits: old(self).keys.bits & !k.bits },
                    ..shifted(*old(self))
                },
                None => shifted(*old(self)),
            },
    {
        self.update();
        match key_code_from_str(code) {
            Some(k) => self.keys.remove(k),
            None => {},
        }
    }

    /// The semantic mouse event of the current state.
    pub fn resolve_mouse(&self) -> (r: MouseEventKind)
        ensures
            r == mouse_event_of(*self),
    {
        if self.wheel_moved {
            return MouseEventKind::Wheel;
        }
        if self.dragging_lately && self.dragging_now {
            return MouseEventKind::Drag;
        }
        if !self.dragging_lately && self.dragging_now {
            return MouseEventKind::StartDrag;
        }
        if self.dragging_lately && !self.dragging_now {
            return MouseEventKind::EndDrag;
        }
        if !self.mouse_down && self.mouse_down_lately && !self.moved_far {
            return MouseEventKind::Click;
        }
        MouseEventKind::Nothing
    }
}

} // verus!
