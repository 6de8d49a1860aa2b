//! Interaction engine of a visual node editor: function nodes with typed
//! sockets, the connections between them, hit-test resolution, pointer and
//! keyboard input resolution, and the typed parameter values that node
//! functions exchange.
use vstd::prelude::*;

pub mod color;
pub mod function;
pub mod gesture;
pub mod input;
pub mod laws;
pub mod params;
pub mod shape;
pub mod socket;
pub mod text;
pub mod tree;
pub mod ui;

verus! {

} // verus!
