//! Descriptors of the functions that nodes stand for.
use vstd::prelude::*;
use crate::params::{Param, ParamType, type_of};
use crate::text::str_eq;

verus! {

/// A node's template: the function's name and the ordered types of its
/// inputs and outputs.
#[derive(Clone, Debug)]
pub struct FunctionDefinition {
    pub inputs: Vec<ParamType>,
    pub outputs: Vec<ParamType>,
    pub name: &'static str,
}

impl FunctionDefinition {
    pub fn new(name: &'static str, inputs: Vec<ParamType>, outputs: Vec<ParamType>) -> (r:
        FunctionDefinition)
        ensures
            r.name == name,
            r.inputs@ == inputs@,
            r.outputs@ == outputs@,
    {
        FunctionDefinition { inputs, outputs, name }
    }
}

/// `f` is the catalog's `asd`: an `i64` and a `single` in, a `single` out.
pub open spec fn is_asd(f: FunctionDefinition) -> bool {
    &&& f.name@ == "asd"@
    &&& f.inputs@ == seq![ParamType::i64, ParamType::single]
    &&& f.outputs@ == seq![ParamType::single]
}

/// `f` is the catalog's `foo`: a `double` in, nothing out.
pub open spec fn is_foo(f: FunctionDefinition) -> bool {
    &&& f.name@ == "foo"@
    &&& f.inputs@ == seq![ParamType::double]
    &&& f.outputs@ == Seq::<ParamType>::empty()
}

/// What calling `f` on `args` appends to memory.
pub open spec fn results_of(f: FunctionDefinition, args: Seq<Param>) -> Seq<Param> {
    if is_asd(f) {
        seq![Param::single(args[1]->single_0)]
    } else {
        Seq::empty()
    }
}

/// The value at each of `addresses` in `memory`.
pub open spec fn args_at(memory: Seq<Param>, addresses: Seq<usize>) -> Seq<Param> {
    addresses.map_values(|a: usize| memory[a as int])
}

/// Passes a `single` through unchanged.
#[allow(unused_variables)]
pub fn asd(param1: i64, param2: u32) -> (result: u32)
    ensures
        result == param2,
{
    param2
}

/// Takes a `double` and returns nothing.
#[allow(unused_variables)]
pub fn foo(param3: u64) {
}

/// Calls `asd` on `5` and the `single` 2.0.
pub fn aaaa() {
    asd(5, 0x4000_0000);
}

/// The functions that nodes can stand for.
pub fn functions() -> (r: Vec<FunctionDefinition>)
    ensures
        r@.len() == 2,
        is_asd(r@[0]),
        is_foo(r@[1]),
{
    let asd_def = FunctionDefinition {
        inputs: vec![ParamType::i64, ParamType::single],
        outputs: vec![ParamType::single],
        name: "asd",
    };
    let foo_def = FunctionDefinition { inputs: vec![ParamType::double], outputs: vec![], name: "foo" };
    proof {
        assert(asd_def.inputs@ =~= seq![ParamType::i64, ParamType::single]);
        assert(asd_def.outputs@ =~= seq![ParamType::single]);
        assert(foo_def.inputs@ =~= seq![ParamType::double]);
        assert(foo_def.outputs@ =~= Seq::<ParamType>::empty());
    }
    vec![asd_def, foo_def]
}

impl FunctionDefinition {
    /// Runs the function on the values at `input_addresses` in `memory`,
    /// appends its outputs to `memory`, and returns the range of addresses
    /// that they occupy.
    pub fn call(&self, input_addresses: &Vec<usize>, memory: &mut Vec<Param>) -> (r: (usize, usize))
        requires
            is_asd(*self) || is_foo(*self),
            input_addresses@.len() == self.inputs@.len(),
            forall|k: int|
                0 <= k < input_addresses@.len() ==> #[trigger] input_addresses@[k] < old(memory)@.len()
                    && type_of(old(memory)@[input_addresses@[k] as int]) == self.inputs@[k],
            old(memory)@.len() + self.outputs@.len() <= usize::MAX,
        ensures
            r == (old(memory)@.len() as usize, (old(memory)@.len() + self.outputs@.len()) as usize),
            final(memory)@ == old(memory)@ + results_of(
                *self,
                args_at(old(memory)@, input_addresses@),
            ),
    {
        let output_addresses = (memory.len(), memory.len() + self.outputs.len());
        let ghost args = args_at(memory@, input_addresses@);
        if str_eq(self.name, "asd") {
            proof {
                reveal_strlit("asd");
                reveal_strlit("foo");
                assert("asd"@[0] != "foo"@[0]);
                assert(is_asd(*self));
            }
            let input_param1 = memory[input_addresses[0]];
            let input_param2 = memory[input_addresses[1]];
            assert(type_of(input_param1) == ParamType::i64);
            assert(type_of(input_param2) == ParamType::single);
            let output = asd(input_param1.into_i64().unwrap(), input_param2.into_single().unwrap());
            memory.push(Param::single(output));
            proof {
                assert(args[1] == input_param2);
                assert(memory@ =~= old(memory)@ + results_of(*self, args));
            }
        } else {
            proof {
                reveal_strlit("asd");
                reveal_strlit("foo");
                assert("asd"@[0] != "foo"@[0]);
                assert(is_foo(*self));
            }
            let input_param3 = memory[input_addresses[0]];
            assert(type_of(input_param3) == ParamType::double);
            foo(input_param3.into_double().unwrap());
            proof {
                assert(memory@ =~= old(memory)@ + results_of(*self, args));
            }
        }
        output_addresses
    }
}

} // verus!
