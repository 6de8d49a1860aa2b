//! Laws of the node graph that relate its operations and states.
use vstd::prelude::*;
use crate::socket::{AsSocketId, InputSocketId, OutputSocketId, SocketId, SocketKind, input_of, output_of};
use crate::tree::{
    CastResult, Connection, Tree, connected, lemma_connected_input, lemma_connected_output,
    resolve_ends, topmost_hit,
};

verus! {

/// In a well-formed tree no two connections end at the same input socket.
pub proof fn law_one_connection_per_input(t: &Tree, i: InputSocketId, o1: OutputSocketId, o2: OutputSocketId)
    requires
        t.wf(),
        t.has_link(i, o1),
        t.has_link(i, o2),
    ensures
        o1 == o2,
        forall|k1: int, k2: int|
            0 <= k1 < t.link_seq().len() && 0 <= k2 < t.link_seq().len() && k1 != k2
                ==> (#[trigger] t.link_seq()[k1]).input != (#[trigger] t.link_seq()[k2]).input,
{
    let k1 = choose|k: int|
        0 <= k < t.link_seq().len() && #[trigger] t.link_seq()[k] == (Connection { input: i, output: o1 });
    let k2 = choose|k: int|
        0 <= k < t.link_seq().len() && #[trigger] t.link_seq()[k] == (Connection { input: i, output: o2 });
    assert(k1 == k2);
}

/// In a well-formed tree an input socket is enabled exactly when it is
/// linked to an output, and an output socket exactly when some input is
/// linked to it.
pub proof fn law_enabled_iff_linked(t: &Tree, s: SocketId)
    requires
        t.wf(),
        t.is_socket(s),
    ensures
        s.kind == SocketKind::Input ==> (t.enabled(s) <==> exists|o: OutputSocketId| #[trigger]
            t.has_link(input_of(s), o)),
        s.kind == SocketKind::Output ==> (t.enabled(s) <==> exists|i: InputSocketId| #[trigger]
            t.has_link(i, output_of(s))),
{
    if s.kind == SocketKind::Input {
        assert(input_of(s).as_generic() == s);
        lemma_connected_input(*t, input_of(s));
    } else {
        assert(output_of(s).as_generic() == s);
        lemma_connected_output(*t, output_of(s));
    }
}

/// A socket under the point wins over the body of its node: when the point
/// falls on the topmost node `n` and on its socket `j`, the cast names a
/// socket of `n`, not the node.
pub proof fn law_socket_before_node(
    t: &Tree,
    node_hit: Seq<bool>,
    socket_hit: Seq<Vec<bool>>,
    connection_hit: Seq<bool>,
    r: CastResult,
    n: int,
    j: int,
)
    requires
        t.hits_fit(node_hit, socket_hit, connection_hit),
        t.point_cast_result(node_hit, socket_hit, connection_hit, r),
        topmost_hit(node_hit, n),
        0 <= j < socket_hit[n]@.len(),
        socket_hit[n]@[j],
    ensures
        r matches CastResult::Socket(s) && s.node == n && s.id <= j,
{
    match r {
        CastResult::Socket(s) => {
            if s.node != n {
                if s.node < n {
                    assert(!node_hit[n]);
                } else {
                    assert(!node_hit[s.node as int]);
                }
            }
        },
        CastResult::Node(m) => {
            if m != n {
                if m < n {
                    assert(!node_hit[n]);
                } else {
                    assert(!node_hit[m as int]);
                }
            }
        },
        CastResult::Connection(_) => {
            assert(!node_hit[n]);
        },
        CastResult::Nothing => {
            assert(!node_hit[n]);
        },
    }
}

/// Connecting the same two sockets a second time changes nothing: after
/// the first call the connection exists, so the second is a no-op.
pub proof fn law_connect_idempotent(before: Tree, once: Tree, twice: Tree, f: SocketId, t: SocketId)
    requires
        connected(before, once, f, t),
        connected(once, twice, f, t),
    ensures
        twice.link_seq() == once.link_seq(),
        twice.node_seq() == once.node_seq(),
{
    let i = resolve_ends(f, t).0;
    let o = resolve_ends(f, t).1;
    if !(f.node == t.node || f.kind == t.kind) {
        assert(once.has_link(i, o));
    }
}

} // verus!
