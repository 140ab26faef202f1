//! The dispatch model: everything the renderer of a contract's entry point
//! needs, built from the ABI under one of two memory models.
use vstd::prelude::*;
use crate::abi::{AbiInput, AbiItem, input_types};
use crate::decode::{build_decode_plan, strategy_of, DecodeKind, DecodeStrategy, decode_call, decode_step_value, min_payload_len_of, plan_steps, DecodePlan, DecodedValue};
use crate::hash::{compute_selector, compute_topic, format_bytes32_multiline, format_bytes_as_hex, hex_text, selector_of, topic_of};
use crate::ident::{identifier_of, normalize_identifier, to_uppercase, uppercase_of, IdentCase};
use crate::signature::{signature_of, signature_text};
use crate::text::{chars_of, push_all, push_str, string_of};

verus! {

/// The memory model of the generated contract.
#[derive(Clone, Copy, Debug, PartialEq, Eq)]
pub enum MemoryModel {
    /// Managed: an allocator, with decoding delegated to alloy's generated call types.
    AllocWithAlloy,
    /// Manual: no allocator, fixed-width fields decoded inline.
    NoAlloc,
}

/// How a function's call is decoded in the generated code.
#[derive(Clone, Debug)]
pub enum FunctionCodegen {
    /// A named selector constant and an inline decode plan.
    Manual { selector_const: String, plan: DecodePlan },
    /// A handler name and the call type that the ABI-decoding library generates.
    Managed { name_snake: String, call_type: String },
}

/// A callable function of the contract.
#[derive(Clone, Debug)]
pub struct FunctionEntry {
    pub name: String,
    pub signature: String,
    pub selector: [u8; 4],
    /// The selector as the body of a Rust byte array literal.
    pub selector_hex: String,
    pub codegen: FunctionCodegen,
}

/// An event of the contract, identified by its topic hash.
#[derive(Clone, Debug)]
pub struct EventEntry {
    pub name: String,
    pub signature: String,
    pub topic: [u8; 32],
    /// The topic as the body of a Rust byte array literal, eight bytes to a line.
    pub topic_hex: String,
    pub const_name: String,
}

/// A custom error of the contract, identified by its selector.
#[derive(Clone, Debug)]
pub struct ErrorEntry {
    pub name: String,
    pub signature: String,
    pub selector: [u8; 4],
    pub selector_hex: String,
    pub const_name: String,
}

/// The contract-wide model handed to the renderer.
#[derive(Clone, Debug)]
pub struct DispatchModel {
    pub contract_name_upper: String,
    pub contract_name_pascal: String,
    pub memory_model: MemoryModel,
    pub functions: Vec<FunctionEntry>,
    pub events: Vec<EventEntry>,
    pub errors: Vec<ErrorEntry>,
}

/// Why an ABI could not be compiled.
#[derive(Clone, Debug, PartialEq, Eq)]
pub enum CompileError {
    /// The function, event or error at this position of the ABI has an empty name.
    EmptySignatureComponent { index: usize },
    /// Two items would get the same generated identifier.
    IdentifierCollision { identifier: String },
    /// Two functions have the same selector.
    SelectorCollision { first: String, second: String },
    /// Under the manual model with `UnsupportedTypes::Reject`, a function has
    /// a parameter whose type no decode step can read.
    UnsupportedParamType { function: String, param_type: String },
}

/// What the manual model does with a parameter whose type it cannot decode.
#[derive(Clone, Copy, Debug, PartialEq, Eq)]
pub enum UnsupportedTypes {
    /// Emit a placeholder step, to be completed by hand.
    Placeholder,
    /// Fail the compilation.
    Reject,
}

/// The name and inputs of each function, in ABI order.
pub open spec fn functions_of(abi: Seq<AbiItem>) -> Seq<(Seq<char>, Seq<AbiInput>)>
    decreases abi.len(),
{
    if abi.len() == 0 {
        Seq::empty()
    } else {
        let rest = functions_of(abi.drop_last());
        match abi.last() {
            AbiItem::Function { name, inputs, .. } => rest.push((name@, inputs@)),
            _ => rest,
        }
    }
}

/// The name and inputs of each event, in ABI order.
pub open spec fn events_of(abi: Seq<AbiItem>) -> Seq<(Seq<char>, Seq<AbiInput>)>
    decreases abi.len(),
{
    if abi.len() == 0 {
        Seq::empty()
    } else {
        let rest = events_of(abi.drop_last());
        match abi.last() {
            AbiItem::Event { name, inputs } => rest.push((name@, inputs@)),
            _ => rest,
        }
    }
}

/// The name and inputs of each custom error, in ABI order.
pub open spec fn errors_of(abi: Seq<AbiItem>) -> Seq<(Seq<char>, Seq<AbiInput>)>
    decreases abi.len(),
{
    if abi.len() == 0 {
        Seq::empty()
    } else {
        let rest = errors_of(abi.drop_last());
        match abi.last() {
            AbiItem::Error { name, inputs } => rest.push((name@, inputs@)),
            _ => rest,
        }
    }
}

/// A function, event or error whose name is empty.
pub open spec fn has_empty_name(item: AbiItem) -> bool {
    match item {
        AbiItem::Function { name, .. } => name@.len() == 0,
        AbiItem::Event { name, .. } => name@.len() == 0,
        AbiItem::Error { name, .. } => name@.len() == 0,
        AbiItem::Constructor { .. } => false,
    }
}

/// A function whose minimum payload length fits in a `usize`.
pub open spec fn inputs_fit(item: AbiItem) -> bool {
    match item {
        AbiItem::Function { inputs, .. } => 4 + 32 * inputs@.len() <= usize::MAX,
        _ => true,
    }
}

/// The call type of a function under the managed model: `{Contract}::{name}Call`.
pub open spec fn call_type_of(contract_pascal: Seq<char>, name: Seq<char>) -> Seq<char> {
    contract_pascal + "::"@ + name + "Call"@
}

/// The function entry the compiler makes of a function.
pub open spec fn function_entry_ok(
    e: FunctionEntry,
    name: Seq<char>,
    inputs: Seq<AbiInput>,
    contract_pascal: Seq<char>,
    model: MemoryModel,
) -> bool {
    &&& e.name@ == name
    &&& e.signature@ == signature_of(name, input_types(inputs))
    &&& e.selector@ == selector_of(e.signature@)
    &&& e.selector_hex@ == hex_text(e.selector@, 0)
    &&& match model {
        MemoryModel::NoAlloc => match e.codegen {
            FunctionCodegen::Manual { selector_const, plan } => {
                &&& selector_const@ == identifier_of(name, IdentCase::UpperSnake) + "_SELECTOR"@
                &&& plan.min_payload_len == min_payload_len_of(inputs.len())
                &&& plan.steps_view() == plan_steps(inputs)
                &&& plan.wf()
            },
            _ => false,
        },
        MemoryModel::AllocWithAlloy => match e.codegen {
            FunctionCodegen::Managed { name_snake, call_type } => {
                &&& name_snake@ == identifier_of(name, IdentCase::Snake)
                &&& call_type@ == call_type_of(contract_pascal, name)
            },
            _ => false,
        },
    }
}

/// The event entry the compiler makes of an event.
pub open spec fn event_entry_ok(e: EventEntry, name: Seq<char>, inputs: Seq<AbiInput>) -> bool {
    &&& e.name@ == name
    &&& e.signature@ == signature_of(name, input_types(inputs))
    &&& e.topic@ == topic_of(e.signature@)
    &&& e.topic_hex@ == hex_text(e.topic@, 8)
    &&& e.const_name@ == identifier_of(name, IdentCase::UpperSnake) + "_EVENT_SIGNATURE"@
}

/// The error entry the compiler makes of a custom error.
pub open spec fn error_entry_ok(e: ErrorEntry, name: Seq<char>, inputs: Seq<AbiInput>) -> bool {
    &&& e.name@ == name
    &&& e.signature@ == signature_of(name, input_types(inputs))
    &&& e.selector@ == selector_of(e.signature@)
    &&& e.selector_hex@ == hex_text(e.selector@, 0)
    &&& e.const_name@ == identifier_of(name, IdentCase::UpperSnake) + "_ERROR"@
}

/// The constant names the ABI's items would get: the selector constant of
/// each function, then the topic constant of each event, then the selector
/// constant of each error. They are checked whatever the memory model, so
/// that one ABI compiles under both models or under neither.
pub open spec fn constant_names_of(abi: Seq<AbiItem>) -> Seq<Seq<char>> {
    let fns = functions_of(abi);
    let evs = events_of(abi);
    let errs = errors_of(abi);
    Seq::new(fns.len(), |j: int| identifier_of(fns[j].0, IdentCase::UpperSnake) + "_SELECTOR"@) + Seq::new(
        evs.len(),
        |j: int| identifier_of(evs[j].0, IdentCase::UpperSnake) + "_EVENT_SIGNATURE"@,
    ) + Seq::new(errs.len(), |j: int| identifier_of(errs[j].0, IdentCase::UpperSnake) + "_ERROR"@)
}

/// The handler name each function would get, in order.
pub open spec fn handler_names_of(abi: Seq<AbiItem>) -> Seq<Seq<char>> {
    let fns = functions_of(abi);
    Seq::new(fns.len(), |j: int| identifier_of(fns[j].0, IdentCase::Snake))
}

/// No two items would share a generated constant name or handler name.
pub open spec fn identifiers_distinct(abi: Seq<AbiItem>) -> bool {
    all_distinct(constant_names_of(abi)) && all_distinct(handler_names_of(abi))
}

/// `identifier` occurs twice in `ids`.
pub open spec fn repeated_in(ids: Seq<Seq<char>>, identifier: Seq<char>) -> bool {
    exists|i: int, j: int| 0 <= i < j < ids.len() && ids[i] == identifier && ids[j] == identifier
}

/// The selectors of the ABI's functions, in order.
pub open spec fn function_selectors_of(abi: Seq<AbiItem>) -> Seq<Seq<u8>> {
    let fns = functions_of(abi);
    Seq::new(fns.len(), |j: int| selector_of(signature_of(fns[j].0, input_types(fns[j].1))))
}

/// No two entries are equal.
pub open spec fn all_distinct<T>(s: Seq<T>) -> bool {
    forall|i: int, j: int| 0 <= i < j < s.len() ==> #[trigger] s[i] != #[trigger] s[j]
}

/// `m` is the model of this ABI under this contract name and memory model.
pub open spec fn compiled(abi: Seq<AbiItem>, contract_name: Seq<char>, model: MemoryModel, m: DispatchModel) -> bool {
    let fns = functions_of(abi);
    let evs = events_of(abi);
    let errs = errors_of(abi);
    &&& m.contract_name_upper@ == uppercase_of(contract_name)
    &&& m.contract_name_pascal@ == identifier_of(contract_name, IdentCase::Pascal)
    &&& m.memory_model == model
    &&& m.functions@.len() == fns.len()
    &&& forall|j: int| 0 <= j < fns.len() ==> function_entry_ok(
        #[trigger] m.functions@[j],
        fns[j].0,
        fns[j].1,
        m.contract_name_pascal@,
        model,
    )
    &&& m.events@.len() == evs.len()
    &&& forall|j: int| 0 <= j < evs.len() ==> event_entry_ok(#[trigger] m.events@[j], evs[j].0, evs[j].1)
    &&& m.errors@.len() == errs.len()
    &&& forall|j: int| 0 <= j < errs.len() ==> error_entry_ok(#[trigger] m.errors@[j], errs[j].0, errs[j].1)
}

fn with_suffix(base: String, suffix: &str) -> (r: String)
    ensures
        r@ == base@ + suffix@,
{
    let mut cs = chars_of(base.as_str());
    push_str(&mut cs, suffix);
    string_of(&cs)
}

fn function_entry(name: &String, inputs: &Vec<AbiInput>, contract_pascal: &String, model: MemoryModel) -> (r:
    FunctionEntry)
    requires
        name@.len() > 0,
        4 + 32 * inputs@.len() <= usize::MAX,
    ensures
        function_entry_ok(r, name@, inputs@, contract_pascal@, model),
{
    let signature = signature_text(name.as_str(), inputs.as_slice());
    let selector = compute_selector(signature.as_str());
    let selector_hex = format_bytes_as_hex(selector.as_slice());
    let codegen = match model {
        MemoryModel::NoAlloc => {
            let selector_const = with_suffix(normalize_identifier(name.as_str(), IdentCase::UpperSnake), "_SELECTOR");
            FunctionCodegen::Manual { selector_const, plan: build_decode_plan(inputs.as_slice()) }
        },
        MemoryModel::AllocWithAlloy => {
            let mut cs = chars_of(contract_pascal.as_str());
            push_str(&mut cs, "::");
            push_str(&mut cs, name.as_str());
            push_str(&mut cs, "Call");
            FunctionCodegen::Managed {
                name_snake: normalize_identifier(name.as_str(), IdentCase::Snake),
                call_type: string_of(&cs),
            }
        },
    };
    FunctionEntry { name: name.clone(), signature, selector, selector_hex, codegen }
}

fn event_entry(name: &String, inputs: &Vec<AbiInput>) -> (r: EventEntry)
    requires
        name@.len() > 0,
    ensures
        event_entry_ok(r, name@, inputs@),
{
    let signature = signature_text(name.as_str(), inputs.as_slice());
    let topic = compute_topic(signature.as_str());
    let topic_hex = format_bytes32_multiline(&topic);
    let const_name = with_suffix(normalize_identifier(name.as_str(), IdentCase::UpperSnake), "_EVENT_SIGNATURE");
    EventEntry { name: name.clone(), signature, topic, topic_hex, const_name }
}

fn error_entry(name: &String, inputs: &Vec<AbiInput>) -> (r: ErrorEntry)
    requires
        name@.len() > 0,
    ensures
        error_entry_ok(r, name@, inputs@),
{
    let signature = signature_text(name.as_str(), inputs.as_slice());
    let selector = compute_selector(signature.as_str());
    let selector_hex = format_bytes_as_hex(selector.as_slice());
    let const_name = with_suffix(normalize_identifier(name.as_str(), IdentCase::UpperSnake), "_ERROR");
    ErrorEntry { name: name.clone(), signature, selector, selector_hex, const_name }
}

fn first_empty_name(abi: &Vec<AbiItem>) -> (r: Option<usize>)
    ensures
        r is None <==> forall|i: int| 0 <= i < abi@.len() ==> !has_empty_name(#[trigger] abi@[i]),
        r is Some ==> r->0 < abi@.len() && has_empty_name(abi@[r->0 as int]) && forall|i: int|
            0 <= i < r->0 ==> !has_empty_name(#[trigger] abi@[i]),
{
    let mut i: usize = 0;
    while i < abi.len()
        invariant
            i <= abi@.len(),
            forall|j: int| 0 <= j < i ==> !has_empty_name(#[trigger] abi@[j]),
        decreases abi@.len() - i,
    {
        let empty = match &abi[i] {
            AbiItem::Function { name, .. } => name.as_str().is_empty(),
            AbiItem::Event { name, .. } => name.as_str().is_empty(),
            AbiItem::Error { name, .. } => name.as_str().is_empty(),
            AbiItem::Constructor { .. } => false,
        };
        if empty {
            return Some(i);
        }
        i = i + 1;
    }
    None
}

/// The first pair of equal strings, by the index of the second.
fn first_duplicate(v: &Vec<String>) -> (r: Option<(usize, usize)>)
    ensures
        r is None <==> all_distinct(v@.map_values(|s: String| s@)),
        r matches Some((i, j)) ==> i < j < v@.len() && v@[i as int]@ == v@[j as int]@,
{
    let ghost vs = v@.map_values(|s: String| s@);
    let mut j: usize = 0;
    while j < v.len()
        invariant
            j <= v@.len(),
            vs == v@.map_values(|s: String| s@),
            forall|a: int, b: int| 0 <= a < b < j ==> #[trigger] vs[a] != #[trigger] vs[b],
        decreases v@.len() - j,
    {
        let mut i: usize = 0;
        while i < j
            invariant
                i <= j < v@.len(),
                vs == v@.map_values(|s: String| s@),
                forall|a: int| 0 <= a < i ==> #[trigger] vs[a] != vs[j as int],
            decreases j - i,
        {
            if v[i] == v[j] {
                assert(vs[i as int] == vs[j as int]);
                return Some((i, j));
            }
            i = i + 1;
        }
        j = j + 1;
    }
    None
}

/// The first pair of functions with equal selectors, by the index of the second.
fn first_selector_duplicate(fns: &Vec<FunctionEntry>) -> (r: Option<(usize, usize)>)
    ensures
        r is None ==> forall|a: int, b: int| 0 <= a < b < fns@.len() ==> (#[trigger] fns@[a]).selector@
            != (#[trigger] fns@[b]).selector@,
        r matches Some((i, j)) ==> i < j < fns@.len() && fns@[i as int].selector@ == fns@[j as int].selector@,
{
    let mut j: usize = 0;
    while j < fns.len()
        invariant
            j <= fns@.len(),
            forall|a: int, b: int| 0 <= a < b < j ==> (#[trigger] fns@[a]).selector@ != (#[trigger] fns@[b]).selector@,
        decreases fns@.len() - j,
    {
        let mut i: usize = 0;
        while i < j
            invariant
                i <= j < fns@.len(),
                forall|a: int| 0 <= a < i ==> (#[trigger] fns@[a]).selector@ != fns@[j as int].selector@,
            decreases j - i,
        {
            let x = &fns[i].selector;
            let y = &fns[j].selector;
            if x[0] == y[0] && x[1] == y[1] && x[2] == y[2] && x[3] == y[3] {
                assert(x@ =~= y@);
                return Some((i, j));
            }
            i = i + 1;
        }
        j = j + 1;
    }
    None
}

/// The constant names and the handler names of a model built from `abi`,
/// in the order of `constant_names_of` and `handler_names_of`.
fn model_identifiers(m: &DispatchModel, Ghost(abi): Ghost<Seq<AbiItem>>) -> (r: (Vec<String>, Vec<String>))
    requires
        exists|c: Seq<char>| compiled(abi, c, m.memory_model, *m),
    ensures
        r.0@.map_values(|s: String| s@) == constant_names_of(abi),
        r.1@.map_values(|s: String| s@) == handler_names_of(abi),
{
    let ghost c = choose|c: Seq<char>| compiled(abi, c, m.memory_model, *m);
    let ghost fns = functions_of(abi);
    let ghost evs = events_of(abi);
    let ghost errs = errors_of(abi);
    let ghost target = constant_names_of(abi);
    let ghost handlers = handler_names_of(abi);
    let mut out: Vec<String> = Vec::new();
    let mut names: Vec<String> = Vec::new();
    let mut j: usize = 0;
    while j < m.functions.len()
        invariant
            compiled(abi, c, m.memory_model, *m),
            j <= m.functions@.len(),
            fns == functions_of(abi),
            target == constant_names_of(abi),
            handlers == handler_names_of(abi),
            out@.len() == j,
            names@.len() == j,
            forall|k: int| 0 <= k < j ==> (#[trigger] out@[k])@ == target[k],
            forall|k: int| 0 <= k < j ==> (#[trigger] names@[k])@ == handlers[k],
        decreases m.functions@.len() - j,
    {
        assert(function_entry_ok(m.functions@[j as int], fns[j as int].0, fns[j as int].1, m.contract_name_pascal@, m.memory_model));
        let name = m.functions[j].name.as_str();
        out.push(with_suffix(normalize_identifier(name, IdentCase::UpperSnake), "_SELECTOR"));
        names.push(normalize_identifier(name, IdentCase::Snake));
        j = j + 1;
    }
    let ghost nf = m.functions@.len() as int;
    j = 0;
    while j < m.events.len()
        invariant
            compiled(abi, c, m.memory_model, *m),
            j <= m.events@.len(),
            fns == functions_of(abi),
            evs == events_of(abi),
            target == constant_names_of(abi),
            nf == m.functions@.len(),
            out@.len() == nf + j,
            forall|k: int| 0 <= k < nf + j ==> (#[trigger] out@[k])@ == target[k],
        decreases m.events@.len() - j,
    {
        assert(event_entry_ok(m.events@[j as int], evs[j as int].0, evs[j as int].1));
        out.push(m.events[j].const_name.clone());
        j = j + 1;
    }
    let ghost ne = m.events@.len() as int;
    j = 0;
    while j < m.errors.len()
        invariant
            compiled(abi, c, m.memory_model, *m),
            j <= m.errors@.len(),
            fns == functions_of(abi),
            evs == events_of(abi),
            errs == errors_of(abi),
            target == constant_names_of(abi),
            nf == m.functions@.len(),
            ne == m.events@.len(),
            out@.len() == nf + ne + j,
            forall|k: int| 0 <= k < nf + ne + j ==> (#[trigger] out@[k])@ == target[k],
        decreases m.errors@.len() - j,
    {
        assert(error_entry_ok(m.errors@[j as int], errs[j as int].0, errs[j as int].1));
        out.push(m.errors[j].const_name.clone());
        j = j + 1;
    }
    assert(out@.map_values(|s: String| s@) =~= target);
    assert(names@.map_values(|s: String| s@) =~= handlers);
    (out, names)
}

/// What compiling `abi` under `model` yields: the first item with an empty
/// name fails the call; then a repeated identifier; then a repeated function
/// selector; otherwise the model that `compiled` describes.
pub open spec fn compile_outcome(
    abi: Seq<AbiItem>,
    contract_name: Seq<char>,
    model: MemoryModel,
    r: Result<DispatchModel, CompileError>,
) -> bool {
    let named = forall|i: int| 0 <= i < abi.len() ==> !has_empty_name(#[trigger] abi[i]);
    let fns = functions_of(abi);
    let sels = function_selectors_of(abi);
    &&& (r is Err && r->Err_0 is EmptySignatureComponent) <==> !named
    &&& r matches Err(CompileError::EmptySignatureComponent { index }) ==> index < abi.len() && has_empty_name(
        abi[index as int],
    ) && forall|i: int| 0 <= i < index ==> !has_empty_name(#[trigger] abi[i])
    &&& (r is Err && r->Err_0 is IdentifierCollision) <==> named && !identifiers_distinct(abi)
    &&& r matches Err(CompileError::IdentifierCollision { identifier }) ==> repeated_in(
        constant_names_of(abi),
        identifier@,
    ) || repeated_in(handler_names_of(abi), identifier@)
    &&& (r is Err && r->Err_0 is SelectorCollision) <==> named && identifiers_distinct(abi) && !all_distinct(sels)
    &&& r matches Err(CompileError::SelectorCollision { first, second }) ==> exists|i: int, j: int|
        0 <= i < j < fns.len() && first@ == signature_of(fns[i].0, input_types(fns[i].1)) && second@
            == signature_of(fns[j].0, input_types(fns[j].1)) && sels[i] == sels[j]
    &&& r is Ok ==> compiled(abi, contract_name, model, r->Ok_0)
    &&& r is Ok && model == MemoryModel::NoAlloc ==> manual_ready(r->Ok_0)
    &&& r is Err ==> !(r->Err_0 is UnsupportedParamType)
}

/// Compiles an ABI into the dispatch model of a contract. Every function,
/// event and error gets its canonical signature and its selector or topic
/// hash; functions get a decode plan under the manual model and a call type
/// under the managed one. An item with an empty name, two items that would
/// share a constant name or a handler name (under either memory model), or
/// two functions with the same selector fail the whole call. Parameters of unsupported types get placeholder steps.
pub fn compile(abi: &Vec<AbiItem>, contract_name: &str, memory_model: MemoryModel) -> (r: Result<
    DispatchModel,
    CompileError,
>)
    requires
        forall|i: int| 0 <= i < abi@.len() ==> inputs_fit(#[trigger] abi@[i]),
    ensures
        compile_outcome(abi@, contract_name@, memory_model, r),
{
    if let Some(index) = first_empty_name(abi) {
        return Err(CompileError::EmptySignatureComponent { index });
    }
    let contract_name_upper = to_uppercase(contract_name);
    let contract_name_pascal = normalize_identifier(contract_name, IdentCase::Pascal);
    let mut functions: Vec<FunctionEntry> = Vec::new();
    let mut events: Vec<EventEntry> = Vec::new();
    let mut errors: Vec<ErrorEntry> = Vec::new();
    let mut i: usize = 0;
    while i < abi.len()
        invariant
            i <= abi@.len(),
            forall|k: int| 0 <= k < abi@.len() ==> inputs_fit(#[trigger] abi@[k]),
            forall|k: int| 0 <= k < abi@.len() ==> !has_empty_name(#[trigger] abi@[k]),
            functions@.len() == functions_of(abi@.take(i as int)).len(),
            forall|j: int| 0 <= j < functions@.len() ==> function_entry_ok(
                #[trigger] functions@[j],
                functions_of(abi@.take(i as int))[j].0,
                functions_of(abi@.take(i as int))[j].1,
                contract_name_pascal@,
                memory_model,
            ),
            events@.len() == events_of(abi@.take(i as int)).len(),
            forall|j: int| 0 <= j < events@.len() ==> event_entry_ok(
                #[trigger] events@[j],
                events_of(abi@.take(i as int))[j].0,
                events_of(abi@.take(i as int))[j].1,
            ),
            errors@.len() == errors_of(abi@.take(i as int)).len(),
            forall|j: int| 0 <= j < errors@.len() ==> error_entry_ok(
                #[trigger] errors@[j],
                errors_of(abi@.take(i as int))[j].0,
                errors_of(abi@.take(i as int))[j].1,
            ),
        decreases abi@.len() - i,
    {
        proof {
            assert(abi@.take(i + 1).drop_last() =~= abi@.take(i as int));
            assert(abi@.take(i + 1).last() == abi@[i as int]);
            assert(inputs_fit(abi@[i as int]));
            assert(!has_empty_name(abi@[i as int]));
        }
        match &abi[i] {
            AbiItem::Function { name, inputs, .. } => {
                let e = function_entry(name, inputs, &contract_name_pascal, memory_model);
                functions.push(e);
            },
            AbiItem::Event { name, inputs } => {
                events.push(event_entry(name, inputs));
            },
            AbiItem::Error { name, inputs } => {
                errors.push(error_entry(name, inputs));
            },
            AbiItem::Constructor { .. } => {},
        }
        i = i + 1;
    }
    assert(abi@.take(abi@.len() as int) =~= abi@);
    let m = DispatchModel {
        contract_name_upper,
        contract_name_pascal,
        memory_model,
        functions,
        events,
        errors,
    };
    proof {
        let fns = functions_of(abi@);
        assert forall|j: int| 0 <= j < m.functions@.len() implies match (#[trigger] m.functions@[j]).codegen {
            FunctionCodegen::Manual { plan, .. } => plan.wf(),
            _ => false,
        } || memory_model != MemoryModel::NoAlloc by {
            assert(function_entry_ok(m.functions@[j], fns[j].0, fns[j].1, m.contract_name_pascal@, memory_model));
        }
    }
    assert(compiled(abi@, contract_name@, memory_model, m));
    let (constants, handlers) = model_identifiers(&m, Ghost(abi@));
    match first_duplicate(&constants) {
        Some((i, j)) => {
            proof {
                let ids = constant_names_of(abi@);
                assert(constants@.map_values(|s: String| s@)[i as int] == ids[i as int]);
                assert(constants@.map_values(|s: String| s@)[j as int] == ids[j as int]);
            }
            return Err(CompileError::IdentifierCollision { identifier: constants[j].clone() });
        },
        None => {},
    }
    match first_duplicate(&handlers) {
        Some((i, j)) => {
            proof {
                let ids = handler_names_of(abi@);
                assert(handlers@.map_values(|s: String| s@)[i as int] == ids[i as int]);
                assert(handlers@.map_values(|s: String| s@)[j as int] == ids[j as int]);
            }
            return Err(CompileError::IdentifierCollision { identifier: handlers[j].clone() });
        },
        None => {},
    }
    match first_selector_duplicate(&m.functions) {
        Some((i, j)) => {
            proof {
                let fns = functions_of(abi@);
                assert(function_entry_ok(m.functions@[i as int], fns[i as int].0, fns[i as int].1, m.contract_name_pascal@, memory_model));
                assert(function_entry_ok(m.functions@[j as int], fns[j as int].0, fns[j as int].1, m.contract_name_pascal@, memory_model));
                assert(function_selectors_of(abi@)[i as int] == function_selectors_of(abi@)[j as int]);
            }
            return Err(
                CompileError::SelectorCollision {
                    first: m.functions[i].signature.clone(),
                    second: m.functions[j].signature.clone(),
                },
            );
        },
        None => {},
    }
    proof {
        let fns = functions_of(abi@);
        let sels = function_selectors_of(abi@);
        assert forall|a: int, b: int| 0 <= a < b < sels.len() implies #[trigger] sels[a] != #[trigger] sels[b] by {
            assert(function_entry_ok(m.functions@[a], fns[a].0, fns[a].1, m.contract_name_pascal@, memory_model));
            assert(function_entry_ok(m.functions@[b], fns[b].0, fns[b].1, m.contract_name_pascal@, memory_model));
        }
    }
    Ok(m)
}

/// Two models agree on every name, signature, selector and topic hash, item
/// by item, and on the constant names of events and errors.
pub open spec fn same_identities(m1: DispatchModel, m2: DispatchModel) -> bool {
    &&& m1.functions@.len() == m2.functions@.len()
    &&& forall|j: int| 0 <= j < m1.functions@.len() ==> {
        &&& (#[trigger] m1.functions@[j]).name@ == m2.functions@[j].name@
        &&& m1.functions@[j].signature@ == m2.functions@[j].signature@
        &&& m1.functions@[j].selector@ == m2.functions@[j].selector@
        &&& m1.functions@[j].selector_hex@ == m2.functions@[j].selector_hex@
    }
    &&& m1.events@.len() == m2.events@.len()
    &&& forall|j: int| 0 <= j < m1.events@.len() ==> {
        &&& (#[trigger] m1.events@[j]).name@ == m2.events@[j].name@
        &&& m1.events@[j].signature@ == m2.events@[j].signature@
        &&& m1.events@[j].topic@ == m2.events@[j].topic@
        &&& m1.events@[j].topic_hex@ == m2.events@[j].topic_hex@
        &&& m1.events@[j].const_name@ == m2.events@[j].const_name@
    }
    &&& m1.errors@.len() == m2.errors@.len()
    &&& forall|j: int| 0 <= j < m1.errors@.len() ==> {
        &&& (#[trigger] m1.errors@[j]).name@ == m2.errors@[j].name@
        &&& m1.errors@[j].signature@ == m2.errors@[j].signature@
        &&& m1.errors@[j].selector@ == m2.errors@[j].selector@
        &&& m1.errors@[j].selector_hex@ == m2.errors@[j].selector_hex@
        &&& m1.errors@[j].const_name@ == m2.errors@[j].const_name@
    }
}

proof fn lemma_models_agree(
    abi: Seq<AbiItem>,
    contract_name: Seq<char>,
    model: MemoryModel,
    m1: DispatchModel,
    m2: DispatchModel,
)
    requires
        compiled(abi, contract_name, model, m1),
        compiled(abi, contract_name, model, m2),
    ensures
        same_identities(m1, m2),
{
    let fns = functions_of(abi);
    assert forall|j: int| 0 <= j < m1.functions@.len() implies m1.functions@[j].selector@
        == m2.functions@[j].selector@ by {
        assert(function_entry_ok(m1.functions@[j], fns[j].0, fns[j].1, m1.contract_name_pascal@, model));
        assert(function_entry_ok(m2.functions@[j], fns[j].0, fns[j].1, m2.contract_name_pascal@, model));
    }
}

proof fn lemma_manual_and_managed_models_agree(
    abi: Seq<AbiItem>,
    contract_name: Seq<char>,
    manual: DispatchModel,
    managed: DispatchModel,
)
    requires
        compiled(abi, contract_name, MemoryModel::NoAlloc, manual),
        compiled(abi, contract_name, MemoryModel::AllocWithAlloy, managed),
    ensures
        same_identities(manual, managed),
        forall|j: int| 0 <= j < manual.functions@.len() ==> (#[trigger] manual.functions@[j]).codegen is Manual,
        forall|j: int| 0 <= j < managed.functions@.len() ==> (#[trigger] managed.functions@[j]).codegen is Managed,
{
    let fns = functions_of(abi);
    assert forall|j: int| 0 <= j < manual.functions@.len() implies manual.functions@[j].selector@
        == managed.functions@[j].selector@ && manual.functions@[j].codegen is Manual by {
        assert(function_entry_ok(manual.functions@[j], fns[j].0, fns[j].1, manual.contract_name_pascal@, MemoryModel::NoAlloc));
        assert(function_entry_ok(managed.functions@[j], fns[j].0, fns[j].1, managed.contract_name_pascal@, MemoryModel::AllocWithAlloy));
    }
    assert forall|j: int| 0 <= j < managed.functions@.len() implies managed.functions@[j].codegen is Managed by {
        assert(function_entry_ok(managed.functions@[j], fns[j].0, fns[j].1, managed.contract_name_pascal@, MemoryModel::AllocWithAlloy));
    }
}

/// The two results succeed together, or fail together with the same kind of error.
pub open spec fn same_success(r1: Result<DispatchModel, CompileError>, r2: Result<DispatchModel, CompileError>) -> bool {
    &&& r1 is Ok <==> r2 is Ok
    &&& (r1 is Err && r1->Err_0 is EmptySignatureComponent) <==> (r2 is Err && r2->Err_0 is EmptySignatureComponent)
    &&& (r1 is Err && r1->Err_0 is IdentifierCollision) <==> (r2 is Err && r2->Err_0 is IdentifierCollision)
    &&& (r1 is Err && r1->Err_0 is SelectorCollision) <==> (r2 is Err && r2->Err_0 is SelectorCollision)
}

/// Compiling the same ABI twice, under the same contract name and memory
/// model, succeeds both times or fails both times alike; when it succeeds,
/// the two models have identical signatures, selectors and topic hashes.
pub proof fn lemma_compile_deterministic(
    abi: Seq<AbiItem>,
    contract_name: Seq<char>,
    model: MemoryModel,
    r1: Result<DispatchModel, CompileError>,
    r2: Result<DispatchModel, CompileError>,
)
    requires
        compile_outcome(abi, contract_name, model, r1),
        compile_outcome(abi, contract_name, model, r2),
    ensures
        same_success(r1, r2),
        r1 is Ok ==> same_identities(r1->Ok_0, r2->Ok_0),
{
    if r1 is Ok {
        lemma_models_agree(abi, contract_name, model, r1->Ok_0, r2->Ok_0);
    }
}

/// Compiling one ABI under the manual and under the managed memory model
/// succeeds under both or fails under both alike. Where it succeeds, the two
/// models have identical signatures, selectors and topic hashes, and differ
/// only in how each function is decoded: a decode plan under the manual
/// model, a call type under the managed one.
pub proof fn lemma_selectors_independent_of_memory_model(
    abi: Seq<AbiItem>,
    contract_name: Seq<char>,
    manual: Result<DispatchModel, CompileError>,
    managed: Result<DispatchModel, CompileError>,
)
    requires
        compile_outcome(abi, contract_name, MemoryModel::NoAlloc, manual),
        compile_outcome(abi, contract_name, MemoryModel::AllocWithAlloy, managed),
    ensures
        same_success(manual, managed),
        manual is Ok ==> same_identities(manual->Ok_0, managed->Ok_0),
        manual matches Ok(m) ==> forall|j: int| 0 <= j < m.functions@.len() ==> (#[trigger] m.functions@[j]).codegen is Manual,
        managed matches Ok(m) ==> forall|j: int| 0 <= j < m.functions@.len() ==> (#[trigger] m.functions@[j]).codegen is Managed,
{
    if manual is Ok {
        lemma_manual_and_managed_models_agree(abi, contract_name, manual->Ok_0, managed->Ok_0);
    }
}

/// Why a call payload could not be routed to a function.
#[derive(Clone, Copy, Debug, PartialEq, Eq)]
pub enum DispatchError {
    /// The payload is too short to hold a selector.
    CallDataTooShort { len: usize },
    /// No function has the payload's selector.
    UnknownSelector,
    /// The payload is shorter than the selected function's minimum payload length.
    InvalidCallData { function: usize, len: usize, min: usize },
}

/// Every function of the model carries a well-formed decode plan.
pub open spec fn manual_ready(m: DispatchModel) -> bool {
    forall|j: int| 0 <= j < m.functions@.len() ==> match (#[trigger] m.functions@[j]).codegen {
        FunctionCodegen::Manual { plan, .. } => plan.wf(),
        _ => false,
    }
}

/// `j` is the first function whose selector is `sel`.
pub open spec fn first_with_selector(fns: Seq<FunctionEntry>, sel: Seq<u8>, j: int) -> bool {
    &&& 0 <= j < fns.len()
    &&& fns[j].selector@ == sel
    &&& forall|k: int| 0 <= k < j ==> (#[trigger] fns[k]).selector@ != sel
}

pub open spec fn plan_of(e: FunctionEntry) -> DecodePlan {
    e.codegen->Manual_plan
}

/// Routes a call payload under the manual model, as the generated entry point
/// does: a payload without a full selector is rejected, the selector picks the
/// first function that has it, a payload shorter than that function's minimum
/// length is rejected, and otherwise its parameters are decoded.
pub fn route_call(model: &DispatchModel, payload: &[u8]) -> (r: Result<(usize, Vec<DecodedValue>), DispatchError>)
    requires
        manual_ready(*model),
    ensures
        (r == Err::<(usize, Vec<DecodedValue>), _>(DispatchError::CallDataTooShort { len: payload@.len() as usize }))
            <==> payload@.len() < 4,
        (r == Err::<(usize, Vec<DecodedValue>), _>(DispatchError::UnknownSelector)) <==> payload@.len() >= 4
            && forall|k: int| 0 <= k < model.functions@.len() ==> (#[trigger] model.functions@[k]).selector@
            != payload@.subrange(0, 4),
        r matches Err(DispatchError::InvalidCallData { function, len, min }) ==> payload@.len() >= 4
            && first_with_selector(model.functions@, payload@.subrange(0, 4), function as int)
            && len == payload@.len() && min == plan_of(model.functions@[function as int]).min_payload_len
            && len < min,
        r matches Ok((j, vals)) ==> payload@.len() >= 4 && first_with_selector(
            model.functions@,
            payload@.subrange(0, 4),
            j as int,
        ) && payload@.len() >= plan_of(model.functions@[j as int]).min_payload_len && vals@.len()
            == plan_of(model.functions@[j as int]).steps@.len() && forall|i: int|
            0 <= i < vals@.len() ==> (#[trigger] vals@[i])@ == decode_step_value(
                plan_of(model.functions@[j as int]).steps@[i]@,
                payload@,
            ),
        payload@.len() >= 4 ==> (exists|k: int| 0 <= k < model.functions@.len()
            && (#[trigger] model.functions@[k]).selector@ == payload@.subrange(0, 4)) ==> (r is Ok
            || r is Err && r->Err_0 is InvalidCallData),
{
    if payload.len() < 4 {
        return Err(DispatchError::CallDataTooShort { len: payload.len() });
    }
    let ghost sel = payload@.subrange(0, 4);
    let mut j: usize = 0;
    while j < model.functions.len()
        invariant
            manual_ready(*model),
            payload@.len() >= 4,
            sel == payload@.subrange(0, 4),
            j <= model.functions@.len(),
            forall|k: int| 0 <= k < j ==> (#[trigger] model.functions@[k]).selector@ != sel,
        decreases model.functions@.len() - j,
    {
        let f = &model.functions[j];
        if f.selector[0] == payload[0] && f.selector[1] == payload[1] && f.selector[2] == payload[2]
            && f.selector[3] == payload[3] {
            assert(f.selector@ =~= sel);
            assert(match model.functions@[j as int].codegen {
                FunctionCodegen::Manual { plan, .. } => plan.wf(),
                _ => false,
            });
            match &f.codegen {
                FunctionCodegen::Manual { plan, .. } => {
                    return match decode_call(plan, payload) {
                        Ok(vals) => Ok((j, vals)),
                        Err(_) => Err(
                            DispatchError::InvalidCallData {
                                function: j,
                                len: payload.len(),
                                min: plan.min_payload_len,
                            },
                        ),
                    };
                },
                FunctionCodegen::Managed { .. } => {
                    return Err(DispatchError::UnknownSelector);
                },
            }
        }
        proof {
            if f.selector@ == sel {
                assert(f.selector@[0] == payload@[0]);
                assert(f.selector@[1] == payload@[1]);
                assert(f.selector@[2] == payload@[2]);
                assert(f.selector@[3] == payload@[3]);
            }
        }
        j = j + 1;
    }
    Err(DispatchError::UnknownSelector)
}

/// No item lacks a name, and the identifiers and function selectors are distinct.
pub open spec fn compiles_cleanly(abi: Seq<AbiItem>) -> bool {
    &&& forall|i: int| 0 <= i < abi.len() ==> !has_empty_name(#[trigger] abi[i])
    &&& identifiers_distinct(abi)
    &&& all_distinct(function_selectors_of(abi))
}

/// Some function has a parameter of a type that no decode step can read.
pub open spec fn has_unsupported_param(abi: Seq<AbiItem>) -> bool {
    let fns = functions_of(abi);
    exists|j: int, k: int| 0 <= j < fns.len() && 0 <= k < fns[j].1.len() && (#[trigger] strategy_of(
        fns[j].1[k].param_type@,
    )) is Unsupported
}

/// `compile`, with the handling of unsupported parameter types chosen by the
/// caller. With `Placeholder`, or under the managed model, whose decoding
/// library reads every type, it is `compile`. With `Reject`, a manual model
/// that would hold a placeholder step fails instead.
pub fn compile_with(
    abi: &Vec<AbiItem>,
    contract_name: &str,
    memory_model: MemoryModel,
    unsupported: UnsupportedTypes,
) -> (r: Result<DispatchModel, CompileError>)
    requires
        forall|i: int| 0 <= i < abi@.len() ==> inputs_fit(#[trigger] abi@[i]),
    ensures
        !(r is Err && r->Err_0 is UnsupportedParamType) ==> compile_outcome(abi@, contract_name@, memory_model, r),
        (r is Err && r->Err_0 is UnsupportedParamType) <==> unsupported == UnsupportedTypes::Reject && memory_model
            == MemoryModel::NoAlloc && compiles_cleanly(abi@) && has_unsupported_param(abi@),
        r matches Err(CompileError::UnsupportedParamType { function, param_type }) ==> exists|j: int, k: int|
            0 <= j < functions_of(abi@).len() && 0 <= k < functions_of(abi@)[j].1.len() && functions_of(abi@)[j].0
                == function@ && functions_of(abi@)[j].1[k].param_type@ == param_type@ && (#[trigger] strategy_of(
                functions_of(abi@)[j].1[k].param_type@,
            )) is Unsupported,
{
    let r = compile(abi, contract_name, memory_model);
    let ghost r0 = r;
    let m = match r {
        Ok(m) => m,
        Err(e) => return Err(e),
    };
    match (unsupported, memory_model) {
        (UnsupportedTypes::Reject, MemoryModel::NoAlloc) => {},
        _ => return Ok(m),
    }
    assert(compiles_cleanly(abi@)) by {
        assert(r0 is Ok);
    }
    let ghost fns = functions_of(abi@);
    let mut j: usize = 0;
    while j < m.functions.len()
        invariant
            compiles_cleanly(abi@),
            unsupported == UnsupportedTypes::Reject,
            compiled(abi@, contract_name@, memory_model, m),
            memory_model == MemoryModel::NoAlloc,
            fns == functions_of(abi@),
            fns.len() == m.functions@.len(),
            j <= m.functions@.len(),
            forall|a: int, k: int| 0 <= a < j && 0 <= k < fns[a].1.len() ==> !((#[trigger] strategy_of(
                fns[a].1[k].param_type@,
            )) is Unsupported),
        decreases m.functions@.len() - j,
    {
        assert(function_entry_ok(m.functions@[j as int], fns[j as int].0, fns[j as int].1, m.contract_name_pascal@, memory_model));
        match &m.functions[j].codegen {
            FunctionCodegen::Manual { plan, .. } => {
                let ghost inputs = fns[j as int].1;
                assert(plan.steps_view().len() == plan.steps@.len());
                assert(plan.steps@.len() == inputs.len());
                let mut k: usize = 0;
                while k < plan.steps.len()
                    invariant
                        plan.steps_view() == crate::decode::plan_steps(inputs),
                        compiles_cleanly(abi@),
                        unsupported == UnsupportedTypes::Reject,
                        memory_model == MemoryModel::NoAlloc,
                        fns == functions_of(abi@),
                        inputs == fns[j as int].1,
                        j < m.functions@.len(),
                        fns.len() == m.functions@.len(),
                        m.functions@[j as int].name@ == fns[j as int].0,
                        plan.steps@.len() == inputs.len(),
                        k <= plan.steps@.len(),
                        forall|b: int| 0 <= b < k ==> !((#[trigger] strategy_of(inputs[b].param_type@)) is Unsupported),
                    decreases plan.steps@.len() - k,
                {
                    assert(plan.steps_view()[k as int] == plan.steps@[k as int]@);
                    assert(plan.steps@[k as int]@ == crate::decode::step_of(inputs[k as int], k as nat));
                    match &plan.steps[k].strategy {
                        DecodeStrategy::Unsupported(t) => {
                            assert(strategy_of(inputs[k as int].param_type@) == DecodeKind::Unsupported(t@));
                            assert(has_unsupported_param(abi@)) by {
                                assert(strategy_of(fns[j as int].1[k as int].param_type@) is Unsupported);
                            }
                            return Err(
                                CompileError::UnsupportedParamType {
                                    function: m.functions[j].name.clone(),
                                    param_type: t.clone(),
                                },
                            );
                        },
                        _ => {},
                    }
                    k = k + 1;
                }
            },
            FunctionCodegen::Managed { .. } => {},
        }
        j = j + 1;
    }
    Ok(m)
}

} // verus!
