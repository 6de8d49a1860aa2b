use shipico::color::ColorParseError;
use shipico::input::{
    key_code_from_str, InputState, Keys, MouseEventKind, KEY_ARROW_LEFT, KEY_ARROW_UP, KEY_DELETE,
    KEY_MENU,
};
use shipico::shape::{ArcSize, Stack, SweepDirection};
use shipico::socket::{is_same_kind, is_same_node, AsSocketId, InputSocketId, SocketId, SocketKind};
use shipico::text::str_eq;
use shipico::ui::{ui, InputEvent, Ui, UiAction};

#[test]
fn key_codes() {
    assert_eq!(key_code_from_str("KeyX"), Some(Keys::from_bits(KEY_DELETE)));
    assert_eq!(key_code_from_str("Space"), Some(Keys::from_bits(KEY_MENU)));
    assert_eq!(key_code_from_str("ArrowUp"), Some(Keys::from_bits(KEY_ARROW_UP)));
    assert_eq!(key_code_from_str("KeyY"), None);
    assert_eq!(key_code_from_str(""), None);
    assert!(str_eq("abc", "abc"));
    assert!(!str_eq("abc", "abd"));
}

#[test]
fn keys_set_operations() {
    let mut k = Keys::empty();
    assert!(k.is_empty());
    k.insert(Keys::from_bits(KEY_DELETE));
    k.insert(Keys::from_bits(KEY_MENU));
    assert!(k.contains(Keys::from_bits(KEY_DELETE | KEY_MENU)));
    k.remove(Keys::from_bits(KEY_DELETE));
    assert!(!k.contains(Keys::from_bits(KEY_DELETE)));
    assert_eq!(k.bits, KEY_MENU);
}

#[test]
fn click_without_moving() {
    let mut s = InputState::new();
    s.on_mouse_down();
    assert_eq!(s.resolve_mouse(), MouseEventKind::Nothing);
    s.on_mouse_up();
    assert_eq!(s.resolve_mouse(), MouseEventKind::Click);
}

#[test]
fn drag_sequence() {
    let mut s = InputState::new();
    s.on_mouse_down();
    s.on_mouse_move(false);
    assert_eq!(s.resolve_mouse(), MouseEventKind::Nothing);
    s.on_mouse_move(true);
    assert_eq!(s.resolve_mouse(), MouseEventKind::StartDrag);
    s.on_mouse_move(true);
    assert_eq!(s.resolve_mouse(), MouseEventKind::Drag);
    s.on_mouse_up();
    assert_eq!(s.resolve_mouse(), MouseEventKind::EndDrag);
    s.on_mouse_move(false);
    assert_eq!(s.resolve_mouse(), MouseEventKind::Nothing);
}

#[test]
fn wheel_event() {
    let mut s = InputState::new();
    s.on_wheel(true);
    assert_eq!(s.resolve_mouse(), MouseEventKind::Wheel);
    s.on_key_down("Shift");
    assert_eq!(s.resolve_mouse(), MouseEventKind::Nothing);
    s.on_wheel(false);
    assert_eq!(s.resolve_mouse(), MouseEventKind::Nothing);
}

#[test]
fn key_down_and_up() {
    let mut s = InputState::new();
    s.on_key_down("KeyX");
    assert_eq!(s.keys.bits, KEY_DELETE);
    assert_eq!(s.keys_lately.bits, 0);
    s.on_key_down("Unknown");
    assert_eq!(s.keys_lately.bits, KEY_DELETE);
    s.on_key_up("KeyX");
    assert_eq!(s.keys.bits, 0);
}

fn event(m: MouseEventKind, lately: u64, now: u64) -> InputEvent {
    InputEvent { mouse_event: m, keys_lately: Keys::from_bits(lately), keys: Keys::from_bits(now) }
}

#[test]
fn ui_actions() {
    let u: Ui = ui();
    assert_eq!(u.tree.nodes().len(), 0);
    assert_eq!(Ui::action_for(&event(MouseEventKind::Click, 0, 0)), UiAction::Click);
    assert_eq!(
        Ui::action_for(&event(MouseEventKind::Click, KEY_DELETE, KEY_DELETE)),
        UiAction::DeleteClick
    );
    assert_eq!(Ui::action_for(&event(MouseEventKind::Click, 0, KEY_DELETE)), UiAction::Ignore);
    assert_eq!(Ui::action_for(&event(MouseEventKind::Drag, 0, 0)), UiAction::DragView);
    assert_eq!(Ui::action_for(&event(MouseEventKind::StartDrag, 0, 0)), UiAction::DragView);
    assert_eq!(Ui::action_for(&event(MouseEventKind::EndDrag, 0, 0)), UiAction::EndDrag);
    assert_eq!(Ui::action_for(&event(MouseEventKind::Nothing, 0, KEY_MENU)), UiAction::MenuOpened);
    assert_eq!(Ui::action_for(&event(MouseEventKind::Nothing, KEY_MENU, 0)), UiAction::MenuClosed);
    assert_eq!(
        Ui::action_for(&event(MouseEventKind::Nothing, 0, KEY_ARROW_LEFT | KEY_ARROW_UP)),
        UiAction::Pan { x: 1, y: 1 }
    );
    assert_eq!(Ui::action_for(&event(MouseEventKind::Nothing, 0, 0)), UiAction::Ignore);
}

#[test]
fn socket_id_views() {
    let s = SocketId::new(3, 1, SocketKind::Input);
    assert_eq!(s.into_input(), InputSocketId::new(3, 1));
    assert_eq!(InputSocketId::new(3, 1).into_generic(), s);
    assert!(is_same_node(s, InputSocketId::new(3, 0)));
    assert!(!is_same_kind(s, SocketId::new(3, 1, SocketKind::Output)));
}

#[test]
fn small_types() {
    assert_eq!(SweepDirection::default(), SweepDirection::CounterClockwise);
    assert_eq!(ArcSize::default(), ArcSize::Small);
    let st = Stack::from(vec![1, 2, 3]);
    assert_eq!(st.body, vec![1, 2, 3]);
    assert_eq!(ColorParseError::BadHexFormat.description(), "Bad hex format");
}

#[test]
fn defaults_are_at_rest() {
    let s = InputState::default();
    assert_eq!(s, InputState::new());
    assert!(!s.mouse_down && !s.dragging_now && !s.wheel_moved);
    assert!(s.keys.is_empty() && s.keys_lately.is_empty());
    assert_eq!(s.resolve_mouse(), MouseEventKind::Nothing);
}

#[test]
fn arrow_keys_pan_in_steps() {
    let mut s = InputState::new();
    s.on_key_down("ArrowRight");
    s.on_key_down("ArrowDown");
    let e = InputEvent { mouse_event: s.resolve_mouse(), keys_lately: s.keys_lately, keys: s.keys };
    assert_eq!(Ui::action_for(&e), UiAction::Pan { x: -1, y: -1 });
    s.on_key_down("ArrowLeft");
    let e = InputEvent { mouse_event: s.resolve_mouse(), keys_lately: s.keys_lately, keys: s.keys };
    assert_eq!(Ui::action_for(&e), UiAction::Pan { x: 0, y: -1 });
}
