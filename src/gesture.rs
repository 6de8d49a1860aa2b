//! The pointer gesture in progress: dragging the view, a node, or a pending
//! connection from a socket.
use vstd::prelude::*;
use crate::socket::{NodeId, SocketId};
use crate::tree::{CastResult, Tree, connected};

verus! {

#[derive(Clone, Copy, Debug, PartialEq, Eq, Structural)]
pub enum Gesture {
    Idle,
    DraggingView,
    DraggingNode(NodeId),
    /// A connection pending from this socket.
    DraggingSocket(SocketId),
}

/// The gesture that a press on `cast` starts: a node is dragged, a socket
/// starts a pending connection, anything else drags the view.
pub open spec fn gesture_for(cast: CastResult) -> Gesture {
    match cast {
        CastResult::Node(n) => Gesture::DraggingNode(n),
        CastResult::Socket(s) => Gesture::DraggingSocket(s),
        _ => Gesture::DraggingView,
    }
}

/// The gesture that a press on `cast` starts.
pub fn start_gesture(cast: CastResult) -> (r: Gesture)
    ensures
        r == gesture_for(cast),
{
    match cast {
        CastResult::Node(n) => Gesture::DraggingNode(n),
        CastResult::Socket(s) => Gesture::DraggingSocket(s),
        _ => Gesture::DraggingView,
    }
}

/// Whether releasing `gesture` over `cast` commits a connection in `t`: a
/// pending connection released over a socket, both sockets existing, and
/// room for one more connection.
pub open spec fn commits(t: Tree, gesture: Gesture, cast: CastResult) -> bool {
    match (gesture, cast) {
        (Gesture::DraggingSocket(from), CastResult::Socket(to)) => {
            &&& t.is_socket(from)
            &&& t.is_socket(to)
            &&& t.link_seq().len() < usize::MAX
        },
        _ => false,
    }
}

/// Ends `gesture` with the pointer released over `cast`. A pending
/// connection released over a socket is made, under the rules of
/// `create_connection`; any other release leaves the tree as it is. The
/// gesture returns to idle.
pub fn finish_gesture(tree: &mut Tree, gesture: Gesture, cast: CastResult) -> (r: Gesture)
    requires
        old(tree).wf(),
    ensures
        r == Gesture::Idle,
        final(tree).wf(),
        commits(*old(tree), gesture, cast) ==> connected(
            *old(tree),
            *final(tree),
            gesture->DraggingSocket_0,
            cast->Socket_0,
        ),
        !commits(*old(tree), gesture, cast) ==> final(tree).node_seq() == old(tree).node_seq()
            && final(tree).link_seq() == old(tree).link_seq(),
{
    match (gesture, cast) {
        (Gesture::DraggingSocket(from), CastResult::Socket(to)) => {
            if tree.socket_exists(from) && tree.socket_exists(to) && tree.connections().len()
                < usize::MAX {
                tree.create_connection(from, to);
            }
        },
        _ => {},
    }
    Gesture::Idle
}

} // verus!
