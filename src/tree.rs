//! The node graph: nodes with their sockets, the connections between
//! sockets, and the rules that keep the two consistent.
//!
//! An input socket takes at most one connection; an output socket may feed
//! any number of inputs. A socket is enabled exactly when some connection
//! touches it.
use vstd::prelude::*;
use crate::function::FunctionDefinition;
use crate::socket::{
    AsSocketId, InputSocketId, NodeId, OutputSocketId, SocketId, SocketKind, input_of,
    is_same_kind, is_same_node, output_of,
};

verus! {

/// One connection point of a node.
#[derive(Clone, Copy, Debug, PartialEq, Eq, Structural)]
pub struct Socket {
    /// True exactly when at least one connection touches the socket.
    pub enabled: bool,
    pub kind: SocketKind,
}

/// A node: the function it stands for, and one socket per input followed by
/// one socket per output.
#[derive(Clone, Debug)]
pub struct NodeData {
    pub function: FunctionDefinition,
    pub sockets: Vec<Socket>,
}

/// An edge from an output socket to an input socket of another node.
#[derive(Clone, Copy, Debug, PartialEq, Eq, Structural)]
pub struct Connection {
    pub input: InputSocketId,
    pub output: OutputSocketId,
}

/// What a point or a line hits.
#[derive(Clone, Copy, Debug, PartialEq, Eq, Structural)]
pub enum CastResult {
    Node(NodeId),
    Socket(SocketId),
    Connection(InputSocketId),
    Nothing,
}

/// The graph of nodes and connections.
pub struct Tree {
    connections: Vec<Connection>,
    nodes: Vec<NodeData>,
}

/// Inputs come first, then outputs: the kind of socket `j` of a function with
/// `n_inputs` inputs.
pub open spec fn kind_at(n_inputs: int, j: int) -> SocketKind {
    if j < n_inputs {
        SocketKind::Input
    } else {
        SocketKind::Output
    }
}

/// The sockets of `n` match its function: one per input, then one per output.
pub open spec fn layout_ok(n: NodeData) -> bool {
    &&& n.sockets@.len() == n.function.inputs@.len() + n.function.outputs@.len()
    &&& forall|j: int|
        0 <= j < n.sockets@.len() ==> #[trigger] n.sockets@[j].kind == kind_at(
            n.function.inputs@.len() as int,
            j,
        )
}

/// The state of a freshly made node of `function`: laid out, nothing enabled.
pub open spec fn fresh_node(n: NodeData, function: FunctionDefinition) -> bool {
    &&& n.function == function
    &&& layout_ok(n)
    &&& forall|j: int| 0 <= j < n.sockets@.len() ==> !(#[trigger] n.sockets@[j].enabled)
}

/// Two node lists that differ at most in which sockets are enabled.
pub open spec fn same_shape(a: Seq<NodeData>, b: Seq<NodeData>) -> bool {
    &&& a.len() == b.len()
    &&& forall|n: int|
        0 <= n < a.len() ==> {
            &&& (#[trigger] a[n]).function == b[n].function
            &&& a[n].sockets@.len() == b[n].sockets@.len()
            &&& forall|j: int|
                0 <= j < a[n].sockets@.len() ==> (#[trigger] a[n].sockets@[j]).kind
                    == b[n].sockets@[j].kind
        }
}

/// Whether connection `c` has `s` as one of its two ends.
pub open spec fn touches(c: Connection, s: SocketId) -> bool {
    match s.kind {
        SocketKind::Input => c.input == input_of(s),
        SocketKind::Output => c.output == output_of(s),
    }
}

/// The (input, output) pair that a connection between `from` and `to` has,
/// whichever of the two is the input.
pub open spec fn resolve_ends(from: SocketId, to: SocketId) -> (InputSocketId, OutputSocketId) {
    match from.kind {
        SocketKind::Input => (input_of(from), output_of(to)),
        SocketKind::Output => (input_of(to), output_of(from)),
    }
}

/// `s` names an existing socket of one of `nodes`, with its true kind.
pub open spec fn socket_in(nodes: Seq<NodeData>, s: SocketId) -> bool {
    &&& s.node < nodes.len()
    &&& s.id < nodes[s.node as int].sockets@.len()
    &&& nodes[s.node as int].sockets@[s.id as int].kind == s.kind
}

impl Tree {
    /// The nodes, in order of creation.
    pub closed spec fn node_seq(&self) -> Seq<NodeData> {
        self.nodes@
    }

    /// The connections, in a stable but unspecified order.
    pub closed spec fn link_seq(&self) -> Seq<Connection> {
        self.connections@
    }

    pub open spec fn is_socket(&self, s: SocketId) -> bool {
        socket_in(self.node_seq(), s)
    }

    /// Whether `s` is enabled.
    pub open spec fn enabled(&self, s: SocketId) -> bool {
        self.node_seq()[s.node as int].sockets@[s.id as int].enabled
    }

    /// Whether the tree holds a connection from `o` to `i`.
    pub open spec fn has_link(&self, i: InputSocketId, o: OutputSocketId) -> bool {
        exists|k: int|
            0 <= k < self.link_seq().len() && #[trigger] self.link_seq()[k] == (Connection {
                input: i,
                output: o,
            })
    }

    /// Whether some connection has `s` as an end.
    pub open spec fn is_connected(&self, s: SocketId) -> bool {
        exists|k: int| 0 <= k < self.link_seq().len() && touches(#[trigger] self.link_seq()[k], s)
    }

    /// Whether some connection ends at input `i`.
    pub open spec fn input_taken(&self, i: InputSocketId) -> bool {
        exists|k: int| 0 <= k < self.link_seq().len() && (#[trigger] self.link_seq()[k]).input == i
    }

    /// Well-formedness: sockets laid out by kind; every connection joins an
    /// existing output to an existing input of another node; no two
    /// connections share an input; a socket is enabled exactly when a
    /// connection touches it.
    pub open spec fn wf(&self) -> bool {
        &&& forall|n: int| 0 <= n < self.node_seq().len() ==> layout_ok(#[trigger] self.node_seq()[n])
        &&& forall|k: int|
            0 <= k < self.link_seq().len() ==> {
                &&& self.is_socket((#[trigger] self.link_seq()[k]).input.as_generic())
                &&& self.is_socket(self.link_seq()[k].output.as_generic())
                &&& self.link_seq()[k].input.node != self.link_seq()[k].output.node
            }
        &&& forall|k1: int, k2: int|
            0 <= k1 < self.link_seq().len() && 0 <= k2 < self.link_seq().len() && k1 != k2
                ==> (#[trigger] self.link_seq()[k1]).input != (#[trigger] self.link_seq()[k2]).input
        &&& forall|s: SocketId| #[trigger]
            self.is_socket(s) ==> (self.enabled(s) <==> self.is_connected(s))
    }
}

impl NodeData {
    /// A node of `function` with every socket disabled.
    pub fn new(function: FunctionDefinition) -> (r: NodeData)
        requires
            function.inputs@.len() + function.outputs@.len() <= usize::MAX,
        ensures
            fresh_node(r, function),
    {
        let n_in = function.inputs.len();
        let n_out = function.outputs.len();
        let mut sockets: Vec<Socket> = Vec::new();
        let mut i: usize = 0;
        while i < n_in
            invariant
                i <= n_in,
                sockets@.len() == i,
                forall|j: int|
                    0 <= j < i ==> #[trigger] sockets@[j] == (Socket {
                        enabled: false,
                        kind: SocketKind::Input,
                    }),
            decreases n_in - i,
        {
            sockets.push(Socket { enabled: false, kind: SocketKind::Input });
            i += 1;
        }
        let mut k: usize = 0;
        while k < n_out
            invariant
                n_in == function.inputs@.len(),
                n_out == function.outputs@.len(),
                n_in + n_out <= usize::MAX,
                k <= n_out,
                sockets@.len() == n_in + k,
                forall|j: int|
                    0 <= j < n_in + k ==> #[trigger] sockets@[j] == (Socket {
                        enabled: false,
                        kind: kind_at(n_in as int, j),
                    }),
            decreases n_out - k,
        {
            sockets.push(Socket { enabled: false, kind: SocketKind::Output });
            k += 1;
        }
        NodeData { function, sockets }
    }

    /// The kind of socket `socket_id`.
    pub fn get_socket_kind(&self, socket_id: usize) -> (r: SocketKind)
        requires
            socket_id < self.sockets@.len(),
        ensures
            r == self.sockets@[socket_id as int].kind,
    {
        self.sockets[socket_id].kind
    }
}

impl Default for Tree {
    fn default() -> (r: Tree)
        ensures
            r.wf(),
            r.node_seq().len() == 0,
            r.link_seq().len() == 0,
    {
        Tree::new()
    }
}

impl Tree {
    /// An empty tree.
    pub fn new() -> (r: Tree)
        ensures
            r.wf(),
            r.node_seq().len() == 0,
            r.link_seq().len() == 0,
    {
        Tree { connections: Vec::new(), nodes: Vec::new() }
    }

    /// The nodes, in order of creation.
    pub fn nodes(&self) -> (r: &Vec<NodeData>)
        ensures
            r@ == self.node_seq(),
    {
        &self.nodes
    }

    /// The connections.
    pub fn connections(&self) -> (r: &Vec<Connection>)
        ensures
            r@ == self.link_seq(),
    {
        &self.connections
    }

    /// Whether socket `s` is enabled.
    pub fn socket_enabled(&self, s: SocketId) -> (r: bool)
        requires
            self.is_socket(s),
        ensures
            r == self.enabled(s),
    {
        self.nodes[s.node].sockets[s.id].enabled
    }

    /// Appends a node of `function`, every socket disabled, and returns its id.
    pub fn create_node(&mut self, function: FunctionDefinition) -> (r: NodeId)
        requires
            old(self).wf(),
            function.inputs@.len() + function.outputs@.len() <= usize::MAX,
        ensures
            final(self).wf(),
            r == old(self).node_seq().len(),
            final(self).node_seq().len() == old(self).node_seq().len() + 1,
            forall|n: int|
                0 <= n < old(self).node_seq().len() ==> #[trigger] final(self).node_seq()[n]
                    == old(self).node_seq()[n],
            fresh_node(final(self).node_seq()[r as int], function),
            final(self).link_seq() == old(self).link_seq(),
    {
        let node = NodeData::new(function);
        let r = self.nodes.len();
        self.nodes.push(node);
        proof {
            assert(self.link_seq() == old(self).link_seq());
            assert forall|s: SocketId| #[trigger]
                self.is_socket(s) implies (self.enabled(s) <==> self.is_connected(s)) by {
                if s.node < r {
                    assert(old(self).is_socket(s));
                    assert(self.enabled(s) == old(self).enabled(s));
                } else {
                    assert(!self.enabled(s));
                    if self.is_connected(s) {
                        let k = choose|k: int|
                            0 <= k < self.link_seq().len() && touches(
                                #[trigger] self.link_seq()[k],
                                s,
                            );
                        assert(old(self).is_socket(old(self).link_seq()[k].input.as_generic()));
                        assert(old(self).is_socket(old(self).link_seq()[k].output.as_generic()));
                    }
                }
            }
            assert forall|k: int| 0 <= k < self.link_seq().len() implies {
                &&& self.is_socket((#[trigger] self.link_seq()[k]).input.as_generic())
                &&& self.is_socket(self.link_seq()[k].output.as_generic())
            } by {
                assert(old(self).is_socket(old(self).link_seq()[k].input.as_generic()));
                assert(old(self).is_socket(old(self).link_seq()[k].output.as_generic()));
            }
        }
        r
    }

    /// Sets whether socket `id` of node `node` is enabled.
    fn set_socket_state(&mut self, node: usize, id: usize, new_state: bool)
        requires
            node < old(self).node_seq().len(),
            id < old(self).node_seq()[node as int].sockets@.len(),
        ensures
            final(self).link_seq() == old(self).link_seq(),
            final(self).node_seq().len() == old(self).node_seq().len(),
            forall|n: int|
                0 <= n < old(self).node_seq().len() && n != node
                    ==> #[trigger] final(self).node_seq()[n] == old(self).node_seq()[n],
            final(self).node_seq()[node as int].function == old(self).node_seq()[node as int].function,
            final(self).node_seq()[node as int].sockets@
                == old(self).node_seq()[node as int].sockets@.update(
                id as int,
                Socket {
                    enabled: new_state,
                    kind: old(self).node_seq()[node as int].sockets@[id as int].kind,
                },
            ),
    {
        self.nodes[node].sockets[id].enabled = new_state;
    }
}

/// The connections of `links.remove(pos)` that touch `s` are those of `links`,
/// but the one at `pos`, that touch it.
proof fn lemma_remove_touches(links: Seq<Connection>, pos: int, s: SocketId)
    requires
        0 <= pos < links.len(),
    ensures
        (exists|k: int| 0 <= k < links.remove(pos).len() && touches(#[trigger] links.remove(pos)[k], s))
            <==> (exists|k: int| 0 <= k < links.len() && k != pos && touches(#[trigger] links[k], s)),
{
    let rest = links.remove(pos);
    if exists|k: int| 0 <= k < rest.len() && touches(#[trigger] rest[k], s) {
        let k = choose|k: int| 0 <= k < rest.len() && touches(#[trigger] rest[k], s);
        if k < pos {
            assert(touches(links[k], s));
        } else {
            assert(touches(links[k + 1], s));
        }
    }
    if exists|k: int| 0 <= k < links.len() && k != pos && touches(#[trigger] links[k], s) {
        let k = choose|k: int| 0 <= k < links.len() && k != pos && touches(#[trigger] links[k], s);
        if k < pos {
            assert(touches(rest[k], s));
        } else {
            assert(touches(rest[k - 1], s));
        }
    }
}

/// The links of `links.remove(pos)` are those of `links` but the one at `pos`.
proof fn lemma_remove_links(links: Seq<Connection>, pos: int, c: Connection)
    requires
        0 <= pos < links.len(),
    ensures
        (exists|k: int| 0 <= k < links.remove(pos).len() && #[trigger] links.remove(pos)[k] == c)
            <==> (exists|k: int| 0 <= k < links.len() && k != pos && #[trigger] links[k] == c),
{
    let rest = links.remove(pos);
    if exists|k: int| 0 <= k < rest.len() && #[trigger] rest[k] == c {
        let k = choose|k: int| 0 <= k < rest.len() && #[trigger] rest[k] == c;
        if k < pos {
            assert(links[k] == c);
        } else {
            assert(links[k + 1] == c);
        }
    }
    if exists|k: int| 0 <= k < links.len() && k != pos && #[trigger] links[k] == c {
        let k = choose|k: int| 0 <= k < links.len() && k != pos && #[trigger] links[k] == c;
        if k < pos {
            assert(rest[k] == c);
        } else {
            assert(rest[k - 1] == c);
        }
    }
}

impl Tree {
    /// The position of the connection that ends at input `input`, if any.
    fn find_input(&self, input: InputSocketId) -> (r: Option<usize>)
        ensures
            match r {
                Some(pos) => pos < self.link_seq().len() && self.link_seq()[pos as int].input
                    == input,
                None => !self.input_taken(input),
            },
    {
        let mut pos: usize = 0;
        while pos < self.connections.len()
            invariant
                pos <= self.link_seq().len(),
                forall|k: int| 0 <= k < pos ==> (#[trigger] self.link_seq()[k]).input != input,
            decreases self.link_seq().len() - pos,
        {
            if self.connections[pos].input == input {
                return Some(pos);
            }
            pos += 1;
        }
        None
    }

    /// Whether some connection leaves output `output`.
    fn output_in_use(&self, output: OutputSocketId) -> (r: bool)
        ensures
            r == self.is_connected(output.as_generic()),
    {
        let mut k: usize = 0;
        while k < self.connections.len()
            invariant
                k <= self.link_seq().len(),
                forall|j: int| 0 <= j < k ==> (#[trigger] self.link_seq()[j]).output != output,
            decreases self.link_seq().len() - k,
        {
            if self.connections[k].output == output {
                assert(touches(self.link_seq()[k as int], output.as_generic()));
                return true;
            }
            k += 1;
        }
        false
    }

    /// Removes the connection that ends at `input_id`, if there is one, and
    /// returns it. The input socket is disabled, and so is the output socket
    /// unless another connection still leaves it.
    fn remove_connection(&mut self, input_id: InputSocketId) -> (r: Option<Connection>)
        requires
            old(self).wf(),
        ensures
            final(self).wf(),
            same_shape(final(self).node_seq(), old(self).node_seq()),
            final(self).link_seq().len() == old(self).link_seq().len() - (if r is Some { 1int } else { 0 }),
            match r {
                Some(c) => {
                    &&& c.input == input_id
                    &&& old(self).has_link(input_id, c.output)
                    &&& forall|i: InputSocketId, o: OutputSocketId| #[trigger]
                        final(self).has_link(i, o) == (old(self).has_link(i, o) && i != input_id)
                },
                None => {
                    &&& !old(self).input_taken(input_id)
                    &&& final(self).link_seq() == old(self).link_seq()
                    &&& final(self).node_seq() == old(self).node_seq()
                },
            },
    {
        let found = self.find_input(input_id);
        match found {
            None => None,
            Some(pos) => {
                let ghost links = self.link_seq();
                let connection = self.connections.remove(pos);
                assert(self.link_seq() == links.remove(pos as int));
                let ghost mid = self.node_seq();
                let input = connection.input;
                let output = connection.output;
                assert(old(self).is_socket(input.as_generic()));
                assert(old(self).is_socket(output.as_generic()));
                self.set_socket_state(input.node, input.id, false);
                let in_use = self.output_in_use(output);
                if !in_use {
                    self.set_socket_state(output.node, output.id, false);
                }
                proof {
                    assert(links[pos as int] == connection);
                    assert(old(self).has_link(input_id, output));
                    assert forall|i: InputSocketId, o: OutputSocketId| #[trigger]
                        self.has_link(i, o) == (old(self).has_link(i, o) && i != input_id) by {
                        let c = Connection { input: i, output: o };
                        lemma_remove_links(links, pos as int, c);
                        if old(self).has_link(i, o) && i == input_id {
                            let k = choose|k: int| 0 <= k < links.len() && #[trigger] links[k] == c;
                            assert(k == pos);
                        }
                    }
                    assert forall|n: int| 0 <= n < self.node_seq().len() implies layout_ok(
                        #[trigger] self.node_seq()[n],
                    ) by {
                        assert(layout_ok(old(self).node_seq()[n]));
                        assert(self.node_seq()[n].sockets@.len() == old(self).node_seq()[n].sockets@.len());
                        assert forall|j: int| 0 <= j < self.node_seq()[n].sockets@.len() implies
                            #[trigger] self.node_seq()[n].sockets@[j].kind
                            == old(self).node_seq()[n].sockets@[j].kind by {
                        }
                    }
                    assert forall|k: int| 0 <= k < self.link_seq().len() implies {
                        &&& self.is_socket((#[trigger] self.link_seq()[k]).input.as_generic())
                        &&& self.is_socket(self.link_seq()[k].output.as_generic())
                        &&& self.link_seq()[k].input.node != self.link_seq()[k].output.node
                    } by {
                        let j = if k < pos { k } else { k + 1 };
                        assert(self.link_seq()[k] == links[j]);
                        assert(old(self).is_socket(links[j].input.as_generic()));
                        assert(old(self).is_socket(links[j].output.as_generic()));
                    }
                    assert forall|k1: int, k2: int|
                        0 <= k1 < self.link_seq().len() && 0 <= k2 < self.link_seq().len() && k1
                            != k2 implies (#[trigger] self.link_seq()[k1]).input
                        != (#[trigger] self.link_seq()[k2]).input by {
                        let j1 = if k1 < pos { k1 } else { k1 + 1 };
                        let j2 = if k2 < pos { k2 } else { k2 + 1 };
                        assert(self.link_seq()[k1] == links[j1]);
                        assert(self.link_seq()[k2] == links[j2]);
                    }
                    assert forall|s: SocketId| #[trigger]
                        self.is_socket(s) implies (self.enabled(s) <==> self.is_connected(s)) by {
                        assert(old(self).is_socket(s));
                        lemma_remove_touches(links, pos as int, s);
                        if touches(connection, s) {
                            if s.kind == SocketKind::Input {
                                if self.is_connected(s) {
                                    let k = choose|k: int|
                                        0 <= k < links.len() && k != pos && touches(
                                            #[trigger] links[k],
                                            s,
                                        );
                                    assert(links[k].input == links[pos as int].input);
                                }
                            } else {
                                assert(s == output.as_generic());
                            }
                        } else {
                            assert(old(self).enabled(s) == self.enabled(s));
                        }
                    }
                }
                Some(connection)
            },
        }
    }

    /// Removes the connection that ends at input `input_id`, if any.
    pub fn delete_connection(&mut self, input_id: InputSocketId)
        requires
            old(self).wf(),
        ensures
            final(self).wf(),
            same_shape(final(self).node_seq(), old(self).node_seq()),
            !final(self).input_taken(input_id),
            forall|i: InputSocketId, o: OutputSocketId| #[trigger]
                final(self).has_link(i, o) == (old(self).has_link(i, o) && i != input_id),
            !old(self).input_taken(input_id) ==> final(self).link_seq() == old(self).link_seq()
                && final(self).node_seq() == old(self).node_seq(),
            old(self).is_socket(input_id.as_generic()) ==> !final(self).enabled(input_id.as_generic()),
            forall|o: OutputSocketId| #[trigger]
                old(self).has_link(input_id, o) ==> (final(self).enabled(o.as_generic()) <==> exists|
                    i: InputSocketId,
                | i != input_id && #[trigger] old(self).has_link(i, o)),
    {
        let r = self.remove_connection(input_id);
        proof {
            if r is None {
                assert forall|i: InputSocketId, o: OutputSocketId| #[trigger]
                    self.has_link(i, o) == (old(self).has_link(i, o) && i != input_id) by {
                    if old(self).has_link(i, o) && i == input_id {
                        let k = choose|k: int|
                            0 <= k < self.link_seq().len() && #[trigger] self.link_seq()[k] == (
                            Connection { input: i, output: o });
                        assert(self.link_seq()[k].input == input_id);
                    }
                }
            }
            if old(self).is_socket(input_id.as_generic()) {
                let g = input_id.as_generic();
                assert(self.node_seq()[g.node as int].sockets@[g.id as int].kind
                    == old(self).node_seq()[g.node as int].sockets@[g.id as int].kind);
                assert(self.is_socket(g));
                lemma_connected_input(*self, input_id);
                if exists|o: OutputSocketId| #[trigger] self.has_link(input_id, o) {
                    let o = choose|o: OutputSocketId| #[trigger] self.has_link(input_id, o);
                    assert(!self.has_link(input_id, o));
                }
            }
            assert forall|o: OutputSocketId| #[trigger] old(self).has_link(input_id, o) implies (
            self.enabled(o.as_generic()) <==> exists|i: InputSocketId|
                i != input_id && #[trigger] old(self).has_link(i, o)) by {
                let k = choose|k: int|
                    0 <= k < old(self).link_seq().len() && #[trigger] old(self).link_seq()[k] == (
                    Connection { input: input_id, output: o });
                let g = o.as_generic();
                assert(old(self).is_socket(g));
                assert(self.node_seq()[g.node as int].sockets@[g.id as int].kind
                    == old(self).node_seq()[g.node as int].sockets@[g.id as int].kind);
                assert(self.is_socket(g));
                lemma_connected_output(*self, o);
                if exists|i: InputSocketId| i != input_id && #[trigger] old(self).has_link(i, o) {
                    let i = choose|i: InputSocketId| i != input_id && #[trigger] old(self).has_link(i, o);
                    assert(self.has_link(i, o));
                }
                if exists|i: InputSocketId| #[trigger] self.has_link(i, o) {
                    let i = choose|i: InputSocketId| #[trigger] self.has_link(i, o);
                    assert(old(self).has_link(i, o) && i != input_id);
                }
            }
            if self.input_taken(input_id) {
                let k = choose|k: int|
                    0 <= k < self.link_seq().len() && (#[trigger] self.link_seq()[k]).input
                        == input_id;
                let c = self.link_seq()[k];
                assert(self.has_link(c.input, c.output));
            }
        }
    }
}

/// `after` is `before` with `f` and `t` connected: nothing changes when the
/// two sockets share a node or a kind, or are connected already; otherwise
/// the connection replaces whatever held the input, and both ends are enabled.
pub open spec fn connected(before: Tree, after: Tree, f: SocketId, t: SocketId) -> bool {
    let i = resolve_ends(f, t).0;
    let o = resolve_ends(f, t).1;
    &&& after.wf()
    &&& same_shape(after.node_seq(), before.node_seq())
    &&& if f.node == t.node || f.kind == t.kind || before.has_link(i, o) {
        &&& after.link_seq() == before.link_seq()
        &&& after.node_seq() == before.node_seq()
    } else {
        &&& forall|i2: InputSocketId, o2: OutputSocketId| #[trigger]
            after.has_link(i2, o2) == if i2 == i {
                o2 == o
            } else {
                before.has_link(i2, o2)
            }
        &&& after.enabled(i.as_generic())
        &&& after.enabled(o.as_generic())
        &&& after.link_seq().len() == before.link_seq().len() + if before.input_taken(i) {
            0int
        } else {
            1int
        }
    }
}

impl Tree {
    /// Connects `from` and `to`, whichever of them is the input.
    ///
    /// Nothing happens when the two sockets belong to one node or are of one
    /// kind, or when the very same connection exists. Otherwise the
    /// connection that held the input before, if any, is removed first; both
    /// ends are then enabled.
    pub fn create_connection<A: AsSocketId, B: AsSocketId>(&mut self, from: A, to: B)
        requires
            old(self).wf(),
            old(self).is_socket(from.as_generic()),
            old(self).is_socket(to.as_generic()),
            old(self).link_seq().len() < usize::MAX,
        ensures
            connected(*old(self), *final(self), from.as_generic(), to.as_generic()),
    {
        if is_same_node(from, to) || is_same_kind(from, to) {
            return;
        }
        let ghost f = from.as_generic();
        let ghost t = to.as_generic();
        let (input, output) = match from.kind() {
            SocketKind::Input => (from.into_input(), to.into_output()),
            SocketKind::Output => (to.into_input(), from.into_output()),
        };
        assert((input, output) == resolve_ends(f, t));
        let found = self.find_input(input);
        match found {
            Some(pos) => {
                if self.connections[pos].output == output {
                    return;
                }
            },
            None => {},
        }
        proof {
            if old(self).has_link(input, output) {
                let k = choose|k: int|
                    0 <= k < self.link_seq().len() && #[trigger] self.link_seq()[k] == (Connection {
                        input,
                        output,
                    });
                let pos = found.unwrap();
                assert(self.link_seq()[k].input == self.link_seq()[pos as int].input);
            }
        }
        let replaced = self.remove_connection(input);
        proof {
            if let Some(c) = replaced {
                let k = choose|k: int|
                    0 <= k < old(self).link_seq().len() && #[trigger] old(self).link_seq()[k] == (
                    Connection { input, output: c.output });
                assert(old(self).link_seq()[k].input == input);
            }
        }
        let ghost removed = *self;
        assert(!removed.input_taken(input)) by {
            if removed.input_taken(input) {
                let k = choose|k: int|
                    0 <= k < removed.link_seq().len() && (#[trigger] removed.link_seq()[k]).input
                        == input;
                let c = removed.link_seq()[k];
                assert(removed.has_link(c.input, c.output));
            }
        }
        assert(removed.is_socket(input.as_generic()));
        assert(removed.is_socket(output.as_generic()));
        self.set_socket_state(input.node, input.id, true);
        self.set_socket_state(output.node, output.id, true);
        let connection = Connection { input, output };
        self.connections.push(connection);
        proof {
            let links = removed.link_seq();
            let last = links.len() as int;
            assert(self.link_seq() == links.push(connection));
            assert(self.link_seq()[last] == connection);
            assert forall|i2: InputSocketId, o2: OutputSocketId| #[trigger]
                self.has_link(i2, o2) == if i2 == input {
                    o2 == output
                } else {
                    old(self).has_link(i2, o2)
                } by {
                let c = Connection { input: i2, output: o2 };
                if self.has_link(i2, o2) {
                    let k = choose|k: int| 0 <= k < self.link_seq().len() && #[trigger] self.link_seq()[k] == c;
                    if k < last {
                        assert(removed.link_seq()[k] == c);
                        assert(removed.has_link(i2, o2));
                    }
                }
                if i2 != input && old(self).has_link(i2, o2) {
                    assert(removed.has_link(i2, o2));
                    let k = choose|k: int| 0 <= k < links.len() && #[trigger] links[k] == c;
                    assert(self.link_seq()[k] == c);
                }
            }
            assert forall|n: int| 0 <= n < self.node_seq().len() implies layout_ok(
                #[trigger] self.node_seq()[n],
            ) by {
                assert(layout_ok(removed.node_seq()[n]));
                assert forall|j: int| 0 <= j < self.node_seq()[n].sockets@.len() implies
                    #[trigger] self.node_seq()[n].sockets@[j].kind
                    == removed.node_seq()[n].sockets@[j].kind by {
                }
            }
            assert forall|k: int| 0 <= k < self.link_seq().len() implies {
                &&& self.is_socket((#[trigger] self.link_seq()[k]).input.as_generic())
                &&& self.is_socket(self.link_seq()[k].output.as_generic())
                &&& self.link_seq()[k].input.node != self.link_seq()[k].output.node
            } by {
                if k < last {
                    assert(self.link_seq()[k] == links[k]);
                    assert(removed.is_socket(links[k].input.as_generic()));
                    assert(removed.is_socket(links[k].output.as_generic()));
                }
            }
            assert forall|k1: int, k2: int|
                0 <= k1 < self.link_seq().len() && 0 <= k2 < self.link_seq().len() && k1
                    != k2 implies (#[trigger] self.link_seq()[k1]).input
                != (#[trigger] self.link_seq()[k2]).input by {
                if k1 < last && k2 < last {
                    assert(self.link_seq()[k1] == links[k1]);
                    assert(self.link_seq()[k2] == links[k2]);
                } else if k1 < last {
                    assert(self.link_seq()[k1] == links[k1]);
                } else {
                    assert(self.link_seq()[k2] == links[k2]);
                }
            }
            assert forall|s: SocketId| #[trigger]
                self.is_socket(s) implies (self.enabled(s) <==> self.is_connected(s)) by {
                assert(removed.is_socket(s));
                if touches(connection, s) {
                    assert(touches(self.link_seq()[last], s));
                } else {
                    assert(removed.enabled(s) == self.enabled(s));
                    if self.is_connected(s) {
                        let k = choose|k: int| 0 <= k < self.link_seq().len() && touches(#[trigger] self.link_seq()[k], s);
                        assert(k < last);
                        assert(touches(links[k], s));
                    }
                    if removed.is_connected(s) {
                        let k = choose|k: int| 0 <= k < links.len() && touches(#[trigger] links[k], s);
                        assert(touches(self.link_seq()[k], s));
                    }
                }
            }
            assert(touches(self.link_seq()[last], input.as_generic()));
            assert(touches(self.link_seq()[last], output.as_generic()));
        }
    }
}

/// Node `n` is hit, and no node created after it is.
pub open spec fn topmost_hit(node_hit: Seq<bool>, n: int) -> bool {
    &&& 0 <= n < node_hit.len()
    &&& node_hit[n]
    &&& forall|m: int| n < m < node_hit.len() ==> !(#[trigger] node_hit[m])
}

/// Entry `k` is the first that is hit.
pub open spec fn first_hit(hit: Seq<bool>, k: int) -> bool {
    &&& 0 <= k < hit.len()
    &&& hit[k]
    &&& forall|j: int| 0 <= j < k ==> !(#[trigger] hit[j])
}

/// The connections that a cut line crosses, in order, as cast results.
pub open spec fn cut_results(links: Seq<Connection>, hit: Seq<bool>) -> Seq<CastResult>
    decreases links.len(),
{
    if links.len() == 0 {
        seq![]
    } else {
        let rest = cut_results(links.drop_last(), hit.take(links.len() - 1));
        if hit[links.len() - 1] {
            rest.push(CastResult::Connection(links.last().input))
        } else {
            rest
        }
    }
}

impl Tree {
    /// The hit flags fit the tree: one per node, one per socket of each node,
    /// one per connection.
    pub open spec fn hits_fit(
        &self,
        node_hit: Seq<bool>,
        socket_hit: Seq<Vec<bool>>,
        connection_hit: Seq<bool>,
    ) -> bool {
        &&& node_hit.len() == self.node_seq().len()
        &&& socket_hit.len() == self.node_seq().len()
        &&& forall|n: int|
            0 <= n < socket_hit.len() ==> (#[trigger] socket_hit[n])@.len()
                == self.node_seq()[n].sockets@.len()
        &&& connection_hit.len() == self.link_seq().len()
    }

    /// `r` is what a point hits: the topmost node that the point falls on,
    /// or rather the first of that node's sockets that it falls on; failing
    /// any node, the first connection that it falls on; failing that, nothing.
    pub open spec fn point_cast_result(
        &self,
        node_hit: Seq<bool>,
        socket_hit: Seq<Vec<bool>>,
        connection_hit: Seq<bool>,
        r: CastResult,
    ) -> bool {
        match r {
            CastResult::Socket(s) => {
                &&& topmost_hit(node_hit, s.node as int)
                &&& first_hit(socket_hit[s.node as int]@, s.id as int)
                &&& s.kind == self.node_seq()[s.node as int].sockets@[s.id as int].kind
            },
            CastResult::Node(n) => {
                &&& topmost_hit(node_hit, n as int)
                &&& forall|j: int|
                    0 <= j < socket_hit[n as int]@.len() ==> !(#[trigger] socket_hit[n as int]@[j])
            },
            CastResult::Connection(i) => {
                &&& forall|n: int| 0 <= n < node_hit.len() ==> !(#[trigger] node_hit[n])
                &&& exists|k: int| first_hit(connection_hit, k) && self.link_seq()[k].input == i
            },
            CastResult::Nothing => {
                &&& forall|n: int| 0 <= n < node_hit.len() ==> !(#[trigger] node_hit[n])
                &&& forall|k: int| 0 <= k < connection_hit.len() ==> !(#[trigger] connection_hit[k])
            },
        }
    }

    /// Resolves a point cast from what the point falls on: `node_hit[n]` for
    /// the bounds of node `n`, `socket_hit[n][j]` for socket `j` of node `n`,
    /// `connection_hit[k]` for connection `k`.
    pub fn resolve_point_cast(
        &self,
        node_hit: &Vec<bool>,
        socket_hit: &Vec<Vec<bool>>,
        connection_hit: &Vec<bool>,
    ) -> (r: CastResult)
        requires
            self.hits_fit(node_hit@, socket_hit@, connection_hit@),
        ensures
            self.point_cast_result(node_hit@, socket_hit@, connection_hit@, r),
    {
        let mut n: usize = self.nodes.len();
        while n > 0
            invariant
                n <= node_hit@.len(),
                self.hits_fit(node_hit@, socket_hit@, connection_hit@),
                forall|m: int| n <= m < node_hit@.len() ==> !(#[trigger] node_hit@[m]),
            decreases n,
        {
            n -= 1;
            if node_hit[n] {
                let hits = &socket_hit[n];
                let mut j: usize = 0;
                while j < hits.len()
                    invariant
                        topmost_hit(node_hit@, n as int),
                        *hits == socket_hit@[n as int],
                        self.hits_fit(node_hit@, socket_hit@, connection_hit@),
                        j <= hits@.len(),
                        forall|jj: int| 0 <= jj < j ==> !(#[trigger] hits@[jj]),
                    decreases hits@.len() - j,
                {
                    if hits[j] {
                        let kind = self.nodes[n].get_socket_kind(j);
                        return CastResult::Socket(SocketId { node: n, id: j, kind });
                    }
                    j += 1;
                }
                return CastResult::Node(n);
            }
        }
        let mut k: usize = 0;
        while k < connection_hit.len()
            invariant
                self.hits_fit(node_hit@, socket_hit@, connection_hit@),
                forall|m: int| 0 <= m < node_hit@.len() ==> !(#[trigger] node_hit@[m]),
                k <= connection_hit@.len(),
                forall|j: int| 0 <= j < k ==> !(#[trigger] connection_hit@[j]),
            decreases connection_hit@.len() - k,
        {
            if connection_hit[k] {
                let r = CastResult::Connection(self.connections[k].input);
                assert(first_hit(connection_hit@, k as int));
                return r;
            }
            k += 1;
        }
        CastResult::Nothing
    }

    /// Resolves a line cast from the connections that the line crosses:
    /// `hit[k]` for connection `k`. Every crossed connection is named once,
    /// in the order of the connections.
    pub fn resolve_line_cast(&self, hit: &Vec<bool>) -> (r: Vec<CastResult>)
        requires
            hit@.len() == self.link_seq().len(),
        ensures
            r@ == cut_results(self.link_seq(), hit@),
    {
        let mut r: Vec<CastResult> = Vec::new();
        let mut k: usize = 0;
        while k < self.connections.len()
            invariant
                hit@.len() == self.link_seq().len(),
                k <= self.link_seq().len(),
                r@ == cut_results(self.link_seq().take(k as int), hit@.take(k as int)),
            decreases self.link_seq().len() - k,
        {
            proof {
                let links = self.link_seq().take(k + 1);
                assert(links.drop_last() =~= self.link_seq().take(k as int));
                assert(hit@.take(k + 1).take(k as int) =~= hit@.take(k as int));
            }
            if hit[k] {
                r.push(CastResult::Connection(self.connections[k].input));
            }
            k += 1;
        }
        assert(self.link_seq().take(k as int) =~= self.link_seq());
        assert(hit@.take(k as int) =~= hit@);
        r
    }
}

/// An output socket is connected exactly when some input is linked to it.
pub(crate) proof fn lemma_connected_output(t: Tree, o: OutputSocketId)
    ensures
        t.is_connected(o.as_generic()) <==> exists|i: InputSocketId| #[trigger] t.has_link(i, o),
{
    if t.is_connected(o.as_generic()) {
        let k = choose|k: int|
            0 <= k < t.link_seq().len() && touches(#[trigger] t.link_seq()[k], o.as_generic());
        assert(t.has_link(t.link_seq()[k].input, o));
    }
    if exists|i: InputSocketId| #[trigger] t.has_link(i, o) {
        let i = choose|i: InputSocketId| #[trigger] t.has_link(i, o);
        let k = choose|k: int|
            0 <= k < t.link_seq().len() && #[trigger] t.link_seq()[k] == (Connection {
                input: i,
                output: o,
            });
        assert(touches(t.link_seq()[k], o.as_generic()));
    }
}

/// An input socket is connected exactly when it is linked to some output.
pub(crate) proof fn lemma_connected_input(t: Tree, i: InputSocketId)
    ensures
        t.is_connected(i.as_generic()) <==> exists|o: OutputSocketId| #[trigger] t.has_link(i, o),
{
    if t.is_connected(i.as_generic()) {
        let k = choose|k: int|
            0 <= k < t.link_seq().len() && touches(#[trigger] t.link_seq()[k], i.as_generic());
        assert(t.has_link(i, t.link_seq()[k].output));
    }
    if exists|o: OutputSocketId| #[trigger] t.has_link(i, o) {
        let o = choose|o: OutputSocketId| #[trigger] t.has_link(i, o);
        let k = choose|k: int|
            0 <= k < t.link_seq().len() && #[trigger] t.link_seq()[k] == (Connection {
                input: i,
                output: o,
            });
        assert(touches(t.link_seq()[k], i.as_generic()));
    }
}

/// Some entry of `cast` names the connection that ends at `i`.
pub open spec fn names_connection(cast: Seq<CastResult>, i: InputSocketId) -> bool {
    exists|k: int| 0 <= k < cast.len() && #[trigger] cast[k] == CastResult::Connection(i)
}

impl Tree {
    /// Whether `s` names an existing socket with its true kind.
    pub fn socket_exists(&self, s: SocketId) -> (r: bool)
        ensures
            r == self.is_socket(s),
    {
        s.node < self.nodes.len() && s.id < self.nodes[s.node].sockets.len()
            && self.nodes[s.node].sockets[s.id].kind == s.kind
    }

    /// Deletes every connection that `cast` names, as a cut line does.
    pub fn delete_connections(&mut self, cast: &Vec<CastResult>)
        requires
            old(self).wf(),
        ensures
            final(self).wf(),
            same_shape(final(self).node_seq(), old(self).node_seq()),
            forall|i: InputSocketId, o: OutputSocketId| #[trigger]
                final(self).has_link(i, o) == (old(self).has_link(i, o) && !names_connection(
                    cast@,
                    i,
                )),
    {
        let mut k: usize = 0;
        while k < cast.len()
            invariant
                k <= cast@.len(),
                self.wf(),
                same_shape(self.node_seq(), old(self).node_seq()),
                forall|i: InputSocketId, o: OutputSocketId| #[trigger]
                    self.has_link(i, o) == (old(self).has_link(i, o) && !names_connection(
                        cast@.take(k as int),
                        i,
                    )),
            decreases cast@.len() - k,
        {
            let ghost before = *self;
            match cast[k] {
                CastResult::Connection(input) => self.delete_connection(input),
                _ => {},
            }
            proof {
                assert forall|i: InputSocketId, o: OutputSocketId| #[trigger]
                    self.has_link(i, o) == (old(self).has_link(i, o) && !names_connection(
                        cast@.take(k + 1),
                        i,
                    )) by {
                    if names_connection(cast@.take(k as int), i) {
                        let j = choose|j: int|
                            0 <= j < k && #[trigger] cast@.take(k as int)[j] == CastResult::Connection(i);
                        assert(cast@.take(k + 1)[j] == CastResult::Connection(i));
                    }
                    if names_connection(cast@.take(k + 1), i) {
                        let j = choose|j: int|
                            0 <= j < k + 1 && #[trigger] cast@.take(k + 1)[j] == CastResult::Connection(i);
                        if j < k {
                            assert(cast@.take(k as int)[j] == CastResult::Connection(i));
                        }
                    }
                    assert(cast@.take(k + 1)[k as int] == cast@[k as int]);
                    if cast@[k as int] == CastResult::Connection(i) {
                        assert(names_connection(cast@.take(k + 1), i));
                        assert(!self.has_link(i, o));
                    } else if names_connection(cast@.take(k + 1), i) {
                        assert(names_connection(cast@.take(k as int), i));
                    }
                    match cast@[k as int] {
                        CastResult::Connection(input) => {
                            assert(self.has_link(i, o) == (before.has_link(i, o) && i != input));
                        },
                        _ => {
                            assert(self.has_link(i, o) == before.has_link(i, o));
                        },
                    }
                }
            }
            k += 1;
        }
        assert(cast@.take(k as int) =~= cast@);
    }
}

} // verus!
