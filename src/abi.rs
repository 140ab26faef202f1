//! The ABI model: the callable functions, events, errors and constructor of a
//! contract, each with its ordered list of typed parameters.
use vstd::prelude::*;

verus! {

/// One input parameter of an ABI item. `param_type` is the canonical type as
/// the Solidity compiler writes it (`uint256`, never `uint`).
#[derive(Clone, Debug)]
pub struct AbiInput {
    /// The declared name; may be empty.
    pub name: String,
    pub param_type: String,
    /// Whether an event parameter is indexed; absent on other items.
    pub indexed: Option<bool>,
}

/// One output parameter of a function.
#[derive(Clone, Debug)]
pub struct AbiOutput {
    pub name: String,
    pub param_type: String,
}

/// One entry of a contract's ABI.
#[derive(Clone, Debug)]
pub enum AbiItem {
    Function {
        name: String,
        inputs: Vec<AbiInput>,
        outputs: Vec<AbiOutput>,
        state_mutability: String,
    },
    Event { name: String, inputs: Vec<AbiInput> },
    Error { name: String, inputs: Vec<AbiInput> },
    Constructor { inputs: Vec<AbiInput> },
}

/// The canonical types of a parameter list, in declaration order.
pub open spec fn input_types(inputs: Seq<AbiInput>) -> Seq<Seq<char>> {
    inputs.map_values(|p: AbiInput| p.param_type@)
}

} // verus!
