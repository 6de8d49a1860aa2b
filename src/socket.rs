//! Identifiers of the sockets of a node: a generic form that carries the
//! socket's kind, and one narrow form for each kind.
use vstd::prelude::*;

verus! {

/// Index of a node in its tree. Nodes are never removed, so an index
/// identifies a node for the tree's whole life.
pub type NodeId = usize;

/// Whether a socket receives a value (input) or provides one (output).
#[derive(Clone, Copy, Debug, PartialEq, Eq, Hash, Structural)]
pub enum SocketKind {
    Input,
    Output,
}

/// A socket named by its node, its index among the node's sockets, and its kind.
#[derive(Clone, Copy, Debug, PartialEq, Eq, Hash, Structural)]
pub struct SocketId {
    pub node: NodeId,
    pub id: usize,
    pub kind: SocketKind,
}

/// An input socket, named by its node and its index among the node's sockets.
#[derive(Clone, Copy, Debug, PartialEq, Eq, Hash, Structural)]
pub struct InputSocketId {
    pub node: NodeId,
    pub id: usize,
}

/// An output socket, named by its node and its index among the node's sockets.
#[derive(Clone, Copy, Debug, PartialEq, Eq, Hash, Structural)]
pub struct OutputSocketId {
    pub node: NodeId,
    pub id: usize,
}

impl SocketId {
    pub fn new(node: NodeId, id: usize, kind: SocketKind) -> (r: SocketId)
        ensures
            r == (SocketId { node, id, kind }),
    {
        SocketId { node, id, kind }
    }
}

impl InputSocketId {
    pub fn new(node: NodeId, id: usize) -> (r: InputSocketId)
        ensures
            r == (InputSocketId { node, id }),
    {
        InputSocketId { node, id }
    }
}

impl OutputSocketId {
    pub fn new(node: NodeId, id: usize) -> (r: OutputSocketId)
        ensures
            r == (OutputSocketId { node, id }),
    {
        OutputSocketId { node, id }
    }
}

/// The three socket identifiers are views of one `(node, index, kind)` triple.
pub trait AsSocketId: Sized + Copy {
    /// The triple this identifier stands for.
    spec fn as_generic(&self) -> SocketId;

    fn node(&self) -> (r: NodeId)
        ensures
            r == self.as_generic().node,
    ;

    fn id(&self) -> (r: usize)
        ensures
            r == self.as_generic().id,
    ;

    fn kind(&self) -> (r: SocketKind)
        ensures
            r == self.as_generic().kind,
    ;

    fn into_generic(self) -> (r: SocketId)
        ensures
            r == self.as_generic(),
    {
        SocketId { id: self.id(), kind: self.kind(), node: self.node() }
    }

    /// Narrows to an input id; the socket must be an input.
    fn into_input(self) -> (r: InputSocketId)
        requires
            self.as_generic().kind == SocketKind::Input,
        ensures
            r == input_of(self.as_generic()),
    {
        InputSocketId { id: self.id(), node: self.node() }
    }

    /// Narrows to an output id; the socket must be an output.
    fn into_output(self) -> (r: OutputSocketId)
        requires
            self.as_generic().kind == SocketKind::Output,
        ensures
            r == output_of(self.as_generic()),
    {
        OutputSocketId { id: self.id(), node: self.node() }
    }
}

/// Whether the two sockets belong to the same node.
pub fn is_same_node<A: AsSocketId, B: AsSocketId>(a: A, b: B) -> (r: bool)
    ensures
        r == (a.as_generic().node == b.as_generic().node),
{
    a.node() == b.node()
}

/// Whether the two sockets are of the same kind.
pub fn is_same_kind<A: AsSocketId, B: AsSocketId>(a: A, b: B) -> (r: bool)
    ensures
        r == (a.as_generic().kind == b.as_generic().kind),
{
    a.kind() == b.kind()
}

/// The input id with the node and index of `s`.
pub open spec fn input_of(s: SocketId) -> InputSocketId {
    InputSocketId { node: s.node, id: s.id }
}

/// The output id with the node and index of `s`.
pub open spec fn output_of(s: SocketId) -> OutputSocketId {
    OutputSocketId { node: s.node, id: s.id }
}

impl AsSocketId for SocketId {
    open spec fn as_generic(&self) -> SocketId {
        *self
    }

    fn node(&self) -> (r: NodeId) {
        self.node
    }

    fn id(&self) -> (r: usize) {
        self.id
    }

    fn kind(&self) -> (r: SocketKind) {
        self.kind
    }
}

impl AsSocketId for InputSocketId {
    open spec fn as_generic(&self) -> SocketId {
        SocketId { node: self.node, id: self.id, kind: SocketKind::Input }
    }

    fn node(&self) -> (r: NodeId) {
        self.node
    }

    fn id(&self) -> (r: usize) {
        self.id
    }

    fn kind(&self) -> (r: SocketKind) {
        SocketKind::Input
    }
}

impl AsSocketId for OutputSocketId {
    open spec fn as_generic(&self) -> SocketId {
        SocketId { node: self.node, id: self.id, kind: SocketKind::Output }
    }

    fn node(&self) -> (r: NodeId) {
        self.node
    }

    fn id(&self) -> (r: usize) {
        self.id
    }

    fn kind(&self) -> (r: SocketKind) {
        SocketKind::Output
    }
}

} // verus!
