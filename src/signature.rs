//! Canonical signatures: `name(type1,type2,...)`, parameter order kept.
use vstd::prelude::*;
use crate::abi::{AbiInput, input_types};
use crate::text::{chars_of, push_all, string_of};

verus! {

/// The types joined by commas, with no spaces.
pub open spec fn joined_types(types: Seq<Seq<char>>) -> Seq<char>
    decreases types.len(),
{
    if types.len() == 0 {
        Seq::empty()
    } else if types.len() == 1 {
        types[0]
    } else {
        joined_types(types.drop_last()) + seq![','] + types.last()
    }
}

/// The canonical signature of an item with this name and these parameter types.
pub open spec fn signature_of(name: Seq<char>, types: Seq<Seq<char>>) -> Seq<char> {
    name + seq!['('] + joined_types(types) + seq![')']
}

/// Why no signature could be built.
#[derive(Clone, Copy, Debug, PartialEq, Eq)]
pub enum SignatureError {
    /// The item's name is empty.
    EmptySignatureComponent,
}

/// Builds the canonical signature of an item from its name and inputs.
/// Names and types are taken as they are: nothing is escaped or re-normalized.
/// An empty name is rejected.
pub fn build_function_signature(name: &str, inputs: &[AbiInput]) -> (r: Result<String, SignatureError>)
    ensures
        r is Err <==> name@.len() == 0,
        r matches Ok(s) ==> s@ == signature_of(name@, input_types(inputs@)),
{
    if name.is_empty() {
        Err(SignatureError::EmptySignatureComponent)
    } else {
        Ok(signature_text(name, inputs))
    }
}

/// The canonical signature of an item whose name is not empty.
pub(crate) fn signature_text(name: &str, inputs: &[AbiInput]) -> (r: String)
    requires
        name@.len() > 0,
    ensures
        r@ == signature_of(name@, input_types(inputs@)),
{
    let mut out = chars_of(name);
    out.push('(');
    let ghost head = out@;
    let mut i: usize = 0;
    while i < inputs.len()
        invariant
            i <= inputs@.len(),
            out@ == head + joined_types(input_types(inputs@.subrange(0, i as int))),
        decreases inputs@.len() - i,
    {
        if i > 0 {
            out.push(',');
        }
        let t = chars_of(inputs[i].param_type.as_str());
        push_all(&mut out, &t);
        proof {
            let done = input_types(inputs@.subrange(0, i + 1));
            assert(done.drop_last() =~= input_types(inputs@.subrange(0, i as int)));
            assert(done.last() == inputs@[i as int].param_type@);
            if i == 0 {
                assert(out@ =~= head + joined_types(done));
            } else {
                assert(out@ =~= head + joined_types(done));
            }
        }
        i = i + 1;
    }
    out.push(')');
    assert(inputs@.subrange(0, inputs@.len() as int) =~= inputs@);
    assert(out@ =~= signature_of(name@, input_types(inputs@)));
    string_of(&out)
}

} // verus!
