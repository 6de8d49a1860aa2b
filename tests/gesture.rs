use shipico::function::FunctionDefinition;
use shipico::gesture::{finish_gesture, start_gesture, Gesture};
use shipico::params::ParamType;
use shipico::socket::{InputSocketId, SocketId, SocketKind};
use shipico::tree::{CastResult, Tree};

fn def(inputs: usize, outputs: usize) -> FunctionDefinition {
    FunctionDefinition::new("f", vec![ParamType::i64; inputs], vec![ParamType::i64; outputs])
}

#[test]
fn press_starts_gesture_by_target() {
    let s = SocketId::new(0, 0, SocketKind::Output);
    assert_eq!(start_gesture(CastResult::Node(2)), Gesture::DraggingNode(2));
    assert_eq!(start_gesture(CastResult::Socket(s)), Gesture::DraggingSocket(s));
    assert_eq!(start_gesture(CastResult::Connection(InputSocketId::new(1, 0))), Gesture::DraggingView);
    assert_eq!(start_gesture(CastResult::Nothing), Gesture::DraggingView);
}

#[test]
fn release_over_socket_commits_connection() {
    let mut t = Tree::new();
    let a = t.create_node(def(0, 1));
    let b = t.create_node(def(1, 0));
    let from = SocketId::new(a, 0, SocketKind::Output);
    let to = SocketId::new(b, 0, SocketKind::Input);
    let g = start_gesture(CastResult::Socket(from));
    let g = finish_gesture(&mut t, g, CastResult::Socket(to));
    assert_eq!(g, Gesture::Idle);
    assert_eq!(t.connections().len(), 1);
    assert!(t.socket_enabled(from) && t.socket_enabled(to));
}

#[test]
fn release_elsewhere_discards_pending_connection() {
    let mut t = Tree::new();
    let a = t.create_node(def(0, 1));
    let b = t.create_node(def(1, 0));
    let from = SocketId::new(a, 0, SocketKind::Output);
    let g = finish_gesture(&mut t, Gesture::DraggingSocket(from), CastResult::Node(b));
    assert_eq!(g, Gesture::Idle);
    assert_eq!(t.connections().len(), 0);
    // a socket that does not exist is ignored
    let bad = SocketId::new(b, 5, SocketKind::Input);
    finish_gesture(&mut t, Gesture::DraggingSocket(from), CastResult::Socket(bad));
    assert_eq!(t.connections().len(), 0);
    // dragging a node commits nothing
    finish_gesture(&mut t, Gesture::DraggingNode(a), CastResult::Socket(SocketId::new(b, 0, SocketKind::Input)));
    assert_eq!(t.connections().len(), 0);
}
