use shipico::function::FunctionDefinition;
use shipico::params::ParamType;
use shipico::socket::{InputSocketId, OutputSocketId, SocketId, SocketKind};
use shipico::tree::{CastResult, Connection, Tree};

fn def(inputs: usize, outputs: usize) -> FunctionDefinition {
    FunctionDefinition::new("f", vec![ParamType::i64; inputs], vec![ParamType::i64; outputs])
}

fn enabled(t: &Tree, node: usize, id: usize) -> bool {
    t.nodes()[node].sockets[id].enabled
}

#[test]
fn node_sockets_laid_out_by_kind() {
    let mut t = Tree::new();
    let n = t.create_node(def(2, 3));
    assert_eq!(n, 0);
    let node = &t.nodes()[0];
    assert_eq!(node.sockets.len(), 5);
    assert_eq!(node.get_socket_kind(0), SocketKind::Input);
    assert_eq!(node.get_socket_kind(1), SocketKind::Input);
    assert_eq!(node.get_socket_kind(2), SocketKind::Output);
    assert_eq!(node.get_socket_kind(4), SocketKind::Output);
    assert!(node.sockets.iter().all(|s| !s.enabled));
    assert_eq!(t.create_node(def(0, 0)), 1);
}

#[test]
fn connect_then_disconnect() {
    let mut t = Tree::new();
    let a = t.create_node(def(0, 1));
    let b = t.create_node(def(1, 0));
    t.create_connection(OutputSocketId::new(a, 0), InputSocketId::new(b, 0));
    assert_eq!(t.connections().len(), 1);
    assert_eq!(
        t.connections()[0],
        Connection { input: InputSocketId::new(b, 0), output: OutputSocketId::new(a, 0) }
    );
    assert!(enabled(&t, a, 0));
    assert!(enabled(&t, b, 0));
    t.delete_connection(InputSocketId::new(b, 0));
    assert_eq!(t.connections().len(), 0);
    assert!(!enabled(&t, a, 0));
    assert!(!enabled(&t, b, 0));
}

#[test]
fn connect_in_either_order() {
    let mut t = Tree::new();
    let a = t.create_node(def(0, 1));
    let b = t.create_node(def(1, 0));
    t.create_connection(
        SocketId::new(b, 0, SocketKind::Input),
        SocketId::new(a, 0, SocketKind::Output),
    );
    assert_eq!(
        t.connections()[0],
        Connection { input: InputSocketId::new(b, 0), output: OutputSocketId::new(a, 0) }
    );
}

#[test]
fn duplicate_connection_is_noop() {
    let mut t = Tree::new();
    let a = t.create_node(def(0, 1));
    let b = t.create_node(def(1, 0));
    t.create_connection(OutputSocketId::new(a, 0), InputSocketId::new(b, 0));
    t.create_connection(OutputSocketId::new(a, 0), InputSocketId::new(b, 0));
    t.create_connection(InputSocketId::new(b, 0), OutputSocketId::new(a, 0));
    assert_eq!(t.connections().len(), 1);
    assert!(enabled(&t, a, 0));
    assert!(enabled(&t, b, 0));
}

#[test]
fn fan_out_preserved() {
    let mut t = Tree::new();
    let o = t.create_node(def(0, 1));
    let i1 = t.create_node(def(1, 0));
    let i2 = t.create_node(def(1, 0));
    t.create_connection(OutputSocketId::new(o, 0), InputSocketId::new(i1, 0));
    t.create_connection(OutputSocketId::new(o, 0), InputSocketId::new(i2, 0));
    assert_eq!(t.connections().len(), 2);
    t.delete_connection(InputSocketId::new(i1, 0));
    assert_eq!(t.connections().len(), 1);
    assert!(enabled(&t, o, 0));
    assert!(!enabled(&t, i1, 0));
    assert!(enabled(&t, i2, 0));
    t.delete_connection(InputSocketId::new(i2, 0));
    assert!(!enabled(&t, o, 0));
}

#[test]
fn new_connection_replaces_old_on_same_input() {
    let mut t = Tree::new();
    let o1 = t.create_node(def(0, 1));
    let o2 = t.create_node(def(0, 1));
    let i = t.create_node(def(1, 0));
    t.create_connection(OutputSocketId::new(o1, 0), InputSocketId::new(i, 0));
    t.create_connection(OutputSocketId::new(o2, 0), InputSocketId::new(i, 0));
    assert_eq!(t.connections().len(), 1);
    assert_eq!(t.connections()[0].output, OutputSocketId::new(o2, 0));
    assert!(!enabled(&t, o1, 0));
    assert!(enabled(&t, o2, 0));
    assert!(enabled(&t, i, 0));
    let inputs: Vec<InputSocketId> = t.connections().iter().map(|c| c.input).collect();
    for (k, x) in inputs.iter().enumerate() {
        assert!(!inputs[k + 1..].contains(x));
    }
}

#[test]
fn invalid_connections_ignored() {
    let mut t = Tree::new();
    let a = t.create_node(def(1, 1));
    let b = t.create_node(def(1, 1));
    // same node
    t.create_connection(OutputSocketId::new(a, 1), InputSocketId::new(a, 0));
    // same kind
    t.create_connection(OutputSocketId::new(a, 1), OutputSocketId::new(b, 1));
    t.create_connection(InputSocketId::new(a, 0), InputSocketId::new(b, 0));
    assert_eq!(t.connections().len(), 0);
    assert!(!enabled(&t, a, 0) && !enabled(&t, a, 1));
    assert!(!enabled(&t, b, 0) && !enabled(&t, b, 1));
}

#[test]
fn delete_missing_connection_is_noop() {
    let mut t = Tree::new();
    let a = t.create_node(def(0, 1));
    let b = t.create_node(def(2, 0));
    t.create_connection(OutputSocketId::new(a, 0), InputSocketId::new(b, 0));
    t.delete_connection(InputSocketId::new(b, 1));
    assert_eq!(t.connections().len(), 1);
    assert!(t.socket_enabled(SocketId::new(b, 0, SocketKind::Input)));
    assert!(!t.socket_enabled(SocketId::new(b, 1, SocketKind::Input)));
}

#[test]
fn socket_hit_wins_over_node() {
    let mut t = Tree::new();
    let a = t.create_node(def(0, 1));
    let b = t.create_node(def(1, 0));
    t.create_connection(OutputSocketId::new(a, 0), InputSocketId::new(b, 0));
    let r = t.resolve_point_cast(
        &vec![true, false],
        &vec![vec![true], vec![false]],
        &vec![false],
    );
    assert_eq!(r, CastResult::Socket(SocketId::new(a, 0, SocketKind::Output)));
}

#[test]
fn point_cast_priorities() {
    let mut t = Tree::new();
    let a = t.create_node(def(0, 1));
    let b = t.create_node(def(1, 0));
    t.create_connection(OutputSocketId::new(a, 0), InputSocketId::new(b, 0));
    // topmost (last created) node wins
    let r = t.resolve_point_cast(&vec![true, true], &vec![vec![false], vec![false]], &vec![true]);
    assert_eq!(r, CastResult::Node(b));
    // no node: the connection
    let r = t.resolve_point_cast(&vec![false, false], &vec![vec![true], vec![true]], &vec![true]);
    assert_eq!(r, CastResult::Connection(InputSocketId::new(b, 0)));
    // nothing at all
    let r = t.resolve_point_cast(&vec![false, false], &vec![vec![false], vec![false]], &vec![false]);
    assert_eq!(r, CastResult::Nothing);
}

#[test]
fn line_cast_names_every_crossed_connection() {
    let mut t = Tree::new();
    let o = t.create_node(def(0, 1));
    let i1 = t.create_node(def(1, 0));
    let i2 = t.create_node(def(1, 0));
    let i3 = t.create_node(def(1, 0));
    for i in [i1, i2, i3] {
        t.create_connection(OutputSocketId::new(o, 0), InputSocketId::new(i, 0));
    }
    let r = t.resolve_line_cast(&vec![true, false, true]);
    assert_eq!(
        r,
        vec![
            CastResult::Connection(InputSocketId::new(i1, 0)),
            CastResult::Connection(InputSocketId::new(i3, 0)),
        ]
    );
    assert_eq!(t.resolve_line_cast(&vec![false, false, false]), vec![]);
}

#[test]
fn cut_deletes_every_named_connection() {
    let mut t = Tree::new();
    let o = t.create_node(def(0, 1));
    let i1 = t.create_node(def(1, 0));
    let i2 = t.create_node(def(1, 0));
    let i3 = t.create_node(def(1, 0));
    for i in [i1, i2, i3] {
        t.create_connection(OutputSocketId::new(o, 0), InputSocketId::new(i, 0));
    }
    let crossed = t.resolve_line_cast(&vec![true, false, true]);
    t.delete_connections(&crossed);
    assert_eq!(t.connections().len(), 1);
    assert_eq!(t.connections()[0].input, InputSocketId::new(i2, 0));
    assert!(enabled(&t, o, 0));
    assert!(!enabled(&t, i1, 0));
    assert!(!enabled(&t, i3, 0));
    assert!(t.socket_exists(SocketId::new(i2, 0, SocketKind::Input)));
    assert!(!t.socket_exists(SocketId::new(i2, 0, SocketKind::Output)));
    assert!(!t.socket_exists(SocketId::new(9, 0, SocketKind::Input)));
}
