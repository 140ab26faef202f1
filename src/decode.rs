//! Decode plans: for each parameter of a function, which 32-byte calldata word
//! holds it and how that word is read, plus the minimum payload length.
use vstd::prelude::*;
use crate::abi::AbiInput;
use crate::ident::{identifier_of, is_ascii_digit, normalize_identifier, IdentCase};
use crate::text::{chars_equal, chars_of, decimal_chars, decimal_of, push_all, push_str, string_of};

verus! {

/// How one parameter is read from its calldata word.
#[derive(Clone, Debug, PartialEq, Eq)]
pub enum DecodeStrategy {
    /// The low 20 bytes of the word.
    Address,
    /// An unsigned integer of this many bits, big-endian in the low bytes of the word.
    UnsignedInt(u32),
    /// True iff the last byte of the word is nonzero.
    Bool,
    /// The whole word, unchanged.
    FixedBytes32,
    /// A type this plan cannot read (dynamic, or wider than 128 bits); it
    /// carries the type's name and is left to be completed by hand.
    Unsupported(String),
}

/// The mathematical form of a decode strategy.
pub enum DecodeKind {
    Address,
    UnsignedInt(nat),
    Bool,
    FixedBytes32,
    Unsupported(Seq<char>),
}

impl View for DecodeStrategy {
    type V = DecodeKind;

    open spec fn view(&self) -> DecodeKind {
        match self {
            DecodeStrategy::Address => DecodeKind::Address,
            DecodeStrategy::UnsignedInt(w) => DecodeKind::UnsignedInt(*w as nat),
            DecodeStrategy::Bool => DecodeKind::Bool,
            DecodeStrategy::FixedBytes32 => DecodeKind::FixedBytes32,
            DecodeStrategy::Unsupported(t) => DecodeKind::Unsupported(t@),
        }
    }
}

pub open spec fn all_digits(s: Seq<char>) -> bool {
    forall|i: int| 0 <= i < s.len() ==> is_ascii_digit(#[trigger] s[i])
}

/// The value of a string of decimal digits.
pub open spec fn digits_value(s: Seq<char>) -> nat
    decreases s.len(),
{
    if s.len() == 0 {
        0
    } else {
        digits_value(s.drop_last()) * 10 + ((s.last() as int) - ('0' as int)) as nat
    }
}

/// The bit width named by a type of the form `uintN`, with `N` written in
/// decimal without leading zeros.
pub open spec fn uint_width(t: Seq<char>) -> Option<nat> {
    if t.len() > 4 && t.subrange(0, 4) == seq!['u', 'i', 'n', 't'] && all_digits(t.subrange(4, t.len() as int))
        && t[4] != '0' {
        Some(digits_value(t.subrange(4, t.len() as int)))
    } else {
        None
    }
}

/// The widths a plan reads as unsigned integers: multiples of 8 up to 128 bits.
pub open spec fn is_supported_width(w: nat) -> bool {
    8 <= w && w <= 128 && w % 8 == 0
}

/// How a parameter of this canonical type is decoded.
pub open spec fn strategy_of(t: Seq<char>) -> DecodeKind {
    if t == "address"@ {
        DecodeKind::Address
    } else if t == "bool"@ {
        DecodeKind::Bool
    } else if t == "bytes32"@ {
        DecodeKind::FixedBytes32
    } else if uint_width(t) is Some && is_supported_width(uint_width(t)->0) {
        DecodeKind::UnsignedInt(uint_width(t)->0)
    } else {
        DecodeKind::Unsupported(t)
    }
}

/// Appending a digit multiplies the value by ten and adds the digit.
pub(crate) proof fn lemma_digits_value_push(s: Seq<char>, c: char)
    ensures
        digits_value(s.push(c)) == digits_value(s) * 10 + ((c as int) - ('0' as int)) as nat,
{
    assert(s.push(c).drop_last() =~= s);
}

/// The width named by `uintN`, with values above 1000 read as 1000.
fn parse_uint_width(t: &Vec<char>) -> (r: Option<u64>)
    ensures
        r is Some <==> uint_width(t@) is Some,
        r is Some ==> r->0 as nat == (if uint_width(t@)->0 > 1000 { 1000 } else { uint_width(t@)->0 }),
{
    if !(t.len() > 4 && t[0] == 'u' && t[1] == 'i' && t[2] == 'n' && t[3] == 't' && t[4] != '0') {
        assert(t@.len() > 4 ==> t@.subrange(0, 4)[0] == t@[0] && t@.subrange(0, 4)[1] == t@[1]
            && t@.subrange(0, 4)[2] == t@[2] && t@.subrange(0, 4)[3] == t@[3]);
        return None;
    }
    assert(t@.subrange(0, 4) =~= seq!['u', 'i', 'n', 't']);
    let mut ok = true;
    let mut v: u64 = 0;
    let mut j: usize = 4;
    while j < t.len()
        invariant
            4 <= j <= t@.len(),
            ok == all_digits(t@.subrange(4, j as int)),
            ok ==> v as nat == (if digits_value(t@.subrange(4, j as int)) > 1000 { 1000 } else {
                digits_value(t@.subrange(4, j as int))
            }),
            v <= 1000,
        decreases t@.len() - j,
    {
        let c = t[j];
        let ghost prev = t@.subrange(4, j as int);
        assert(t@.subrange(4, j + 1) =~= prev.push(c));
        if ok && '0' <= c && c <= '9' {
            let d = (c as u32 - '0' as u32) as u64;
            proof {
                lemma_digits_value_push(prev, c);
                let x = digits_value(prev);
                assert(x > 1000 ==> x * 10 + d >= 1000) by (nonlinear_arith)
                    requires x >= 0, d >= 0;
                assert forall|i: int| 0 <= i < prev.len() + 1 implies is_ascii_digit(#[trigger] prev.push(c)[i]) by {
                    if i < prev.len() {
                        assert(prev.push(c)[i] == prev[i]);
                    }
                }
            }
            let nv = v * 10 + d;
            v = if nv > 1000 { 1000 } else { nv };
        } else {
            proof {
                if ok {
                    assert(!is_ascii_digit(prev.push(c)[prev.len() as int]));
                } else {
                    assert(!all_digits(prev));
                    let k = choose|k: int| 0 <= k < prev.len() && !is_ascii_digit(prev[k]);
                    assert(prev.push(c)[k] == prev[k]);
                }
            }
            ok = false;
        }
        j = j + 1;
    }
    if ok {
        Some(v)
    } else {
        None
    }
}

/// Classifies a canonical type: `address`, `bool`, `bytes32`, `uint8` to
/// `uint128` are read from their word; anything else is unsupported.
pub fn classify_type(param_type: &str) -> (r: DecodeStrategy)
    ensures
        r@ == strategy_of(param_type@),
{
    let t = chars_of(param_type);
    if chars_equal(&t, &chars_of("address")) {
        DecodeStrategy::Address
    } else if chars_equal(&t, &chars_of("bool")) {
        DecodeStrategy::Bool
    } else if chars_equal(&t, &chars_of("bytes32")) {
        DecodeStrategy::FixedBytes32
    } else {
        match parse_uint_width(&t) {
            Some(w) => {
                if 8 <= w && w <= 128 && w % 8 == 0 {
                    DecodeStrategy::UnsignedInt(w as u32)
                } else {
                    DecodeStrategy::Unsupported(string_of(&t))
                }
            },
            None => DecodeStrategy::Unsupported(string_of(&t)),
        }
    }
}


/// One parameter's decode instruction.
#[derive(Clone, Debug, PartialEq, Eq)]
pub struct DecodeStep {
    /// The identifier the parameter gets in generated code.
    pub param_name: String,
    /// The calldata bytes `[start, end)` of the parameter's word; none for an
    /// unsupported type.
    pub byte_range: Option<(usize, usize)>,
    pub strategy: DecodeStrategy,
}

/// The decode instructions of one function, in parameter order.
#[derive(Clone, Debug, PartialEq, Eq)]
pub struct DecodePlan {
    /// The selector and one 32-byte word per parameter, whatever the types.
    pub min_payload_len: usize,
    pub steps: Vec<DecodeStep>,
}

/// The mathematical form of a decode step.
pub struct StepView {
    pub param_name: Seq<char>,
    pub byte_range: Option<(nat, nat)>,
    pub kind: DecodeKind,
}

impl View for DecodeStep {
    type V = StepView;

    open spec fn view(&self) -> StepView {
        StepView {
            param_name: self.param_name@,
            byte_range: match self.byte_range {
                Some(r) => Some((r.0 as nat, r.1 as nat)),
                None => None,
            },
            kind: self.strategy@,
        }
    }
}

impl DecodePlan {
    /// The steps of the plan, as mathematical values.
    pub open spec fn steps_view(&self) -> Seq<StepView> {
        self.steps@.map_values(|s: DecodeStep| s@)
    }

    /// Every word range lies within the minimum payload and is one word long,
    /// and every integer width is one the plan can read.
    pub open spec fn wf(&self) -> bool {
        forall|i: int| 0 <= i < self.steps@.len() ==> step_wf(#[trigger] self.steps@[i]@, self.min_payload_len as nat)
    }
}

/// A word range one word long that ends within the minimum payload.
pub open spec fn range_wf(r: (nat, nat), min_payload_len: nat) -> bool {
    r.1 == r.0 + 32 && r.1 <= min_payload_len
}

pub open spec fn step_wf(s: StepView, min_payload_len: nat) -> bool {
    &&& (s.byte_range is Some ==> range_wf(s.byte_range->0, min_payload_len))
    &&& (s.kind is UnsignedInt ==> is_supported_width(s.kind->UnsignedInt_0))
}

/// The identifier of the parameter at `idx`: its name in `snake_case`, or
/// `param_<idx>` when it has none.
pub open spec fn param_identifier(p: AbiInput, idx: nat) -> Seq<char> {
    if p.name@.len() == 0 {
        "param_"@ + decimal_of(idx)
    } else {
        identifier_of(p.name@, IdentCase::Snake)
    }
}

/// Where the word of the parameter at `idx` starts: past the selector and the
/// words before it.
pub open spec fn word_offset(idx: nat) -> nat {
    4 + 32 * idx
}

/// The minimum payload length for this many parameters.
pub open spec fn min_payload_len_of(n: nat) -> nat {
    4 + 32 * n
}

/// The decode step of the parameter at `idx`.
pub open spec fn step_of(p: AbiInput, idx: nat) -> StepView {
    let kind = strategy_of(p.param_type@);
    StepView {
        param_name: param_identifier(p, idx),
        byte_range: if kind is Unsupported {
            None
        } else {
            Some((word_offset(idx), word_offset(idx) + 32))
        },
        kind,
    }
}

/// The decode steps of a parameter list.
pub open spec fn plan_steps(inputs: Seq<AbiInput>) -> Seq<StepView> {
    Seq::new(inputs.len(), |i: int| step_of(inputs[i], i as nat))
}

fn param_name_for(p: &AbiInput, idx: usize) -> (r: String)
    ensures
        r@ == param_identifier(*p, idx as nat),
{
    if p.name.as_str().is_empty() {
        let mut out: Vec<char> = Vec::new();
        push_str(&mut out, "param_");
        let digits = decimal_chars(idx);
        push_all(&mut out, &digits);
        string_of(&out)
    } else {
        normalize_identifier(p.name.as_str(), IdentCase::Snake)
    }
}

/// Builds the decode plan of a function's inputs: parameter `i` is read from
/// the word at `4 + 32 * i`, and the payload must hold all the words.
pub fn build_decode_plan(inputs: &[AbiInput]) -> (r: DecodePlan)
    requires
        4 + 32 * inputs@.len() <= usize::MAX,
    ensures
        r.min_payload_len == min_payload_len_of(inputs@.len()),
        r.steps_view() == plan_steps(inputs@),
        r.wf(),
{
    let mut steps: Vec<DecodeStep> = Vec::new();
    let mut offset: usize = 4;
    let mut i: usize = 0;
    while i < inputs.len()
        invariant
            i <= inputs@.len(),
            4 + 32 * inputs@.len() <= usize::MAX,
            i < inputs@.len() ==> offset == word_offset(i as nat),
            steps@.len() == i,
            forall|j: int| 0 <= j < i ==> #[trigger] steps@[j]@ == step_of(inputs@[j], j as nat),
        decreases inputs@.len() - i,
    {
        let input = &inputs[i];
        let strategy = classify_type(input.param_type.as_str());
        let byte_range = match strategy {
            DecodeStrategy::Unsupported(_) => None,
            _ => Some((offset, offset + 32)),
        };
        let step = DecodeStep { param_name: param_name_for(input, i), byte_range, strategy };
        steps.push(step);
        i = i + 1;
        if i < inputs.len() {
            offset = offset + 32;
        }
    }
    let r = DecodePlan { min_payload_len: 4 + 32 * inputs.len(), steps };
    assert(r.steps_view() =~= plan_steps(inputs@));
    assert forall|i: int| 0 <= i < r.steps@.len() implies step_wf(#[trigger] r.steps@[i]@, r.min_payload_len as nat) by {
        assert(r.steps@[i]@ == step_of(inputs@[i], i as nat));
        assert(36 + 32 * i <= 4 + 32 * inputs@.len());
    }
    r
}

/// A parameter value read from calldata.
#[derive(Clone, Debug, PartialEq, Eq)]
pub enum DecodedValue {
    Address(Vec<u8>),
    UnsignedInt(u128),
    Bool(bool),
    FixedBytes32(Vec<u8>),
    /// The placeholder for a parameter whose type the plan cannot read.
    Unsupported,
}

/// The mathematical form of a decoded value.
pub enum ValueView {
    Address(Seq<u8>),
    UnsignedInt(nat),
    Bool(bool),
    FixedBytes32(Seq<u8>),
    Unsupported,
}

impl View for DecodedValue {
    type V = ValueView;

    open spec fn view(&self) -> ValueView {
        match self {
            DecodedValue::Address(b) => ValueView::Address(b@),
            DecodedValue::UnsignedInt(v) => ValueView::UnsignedInt(*v as nat),
            DecodedValue::Bool(b) => ValueView::Bool(*b),
            DecodedValue::FixedBytes32(b) => ValueView::FixedBytes32(b@),
            DecodedValue::Unsupported => ValueView::Unsupported,
        }
    }
}

/// The big-endian value of a byte string.
pub open spec fn be_value(s: Seq<u8>) -> nat
    decreases s.len(),
{
    if s.len() == 0 {
        0
    } else {
        be_value(s.drop_last()) * 256 + s.last() as nat
    }
}

/// What a 32-byte word decodes to under a strategy.
pub open spec fn decode_word(kind: DecodeKind, word: Seq<u8>) -> ValueView {
    match kind {
        DecodeKind::Address => ValueView::Address(word.subrange(12, 32)),
        DecodeKind::UnsignedInt(w) => ValueView::UnsignedInt(be_value(word.subrange(32 - (w / 8) as int, 32))),
        DecodeKind::Bool => ValueView::Bool(word[31] != 0),
        DecodeKind::FixedBytes32 => ValueView::FixedBytes32(word),
        DecodeKind::Unsupported(_) => ValueView::Unsupported,
    }
}

/// What a step reads from a payload.
pub open spec fn decode_step_value(step: StepView, payload: Seq<u8>) -> ValueView {
    match step.byte_range {
        Some(r) => decode_word(step.kind, payload.subrange(r.0 as int, r.1 as int)),
        None => ValueView::Unsupported,
    }
}

/// Why a payload could not be decoded.
#[derive(Clone, Copy, Debug, PartialEq, Eq)]
pub enum DecodeError {
    /// The payload is shorter than the selector and one word per parameter.
    PayloadTooShort { len: usize, min: usize },
}

pub open spec fn pow256(n: nat) -> nat
    decreases n,
{
    if n == 0 {
        1
    } else {
        256 * pow256((n - 1) as nat)
    }
}

proof fn lemma_pow256_mono(a: nat, b: nat)
    requires
        a <= b,
    ensures
        pow256(a) <= pow256(b),
    decreases b - a,
{
    if a < b {
        lemma_pow256_mono(a, (b - 1) as nat);
    }
}

fn copy_range(payload: &[u8], from: usize, to: usize) -> (r: Vec<u8>)
    requires
        from <= to <= payload@.len(),
    ensures
        r@ == payload@.subrange(from as int, to as int),
{
    let mut out: Vec<u8> = Vec::new();
    let mut k: usize = from;
    while k < to
        invariant
            from <= k <= to <= payload@.len(),
            out@ == payload@.subrange(from as int, k as int),
        decreases to - k,
    {
        out.push(payload[k]);
        k = k + 1;
        assert(out@ =~= payload@.subrange(from as int, k as int));
    }
    out
}

fn read_be(payload: &[u8], from: usize, to: usize) -> (r: u128)
    requires
        from <= to <= payload@.len(),
        to - from <= 16,
    ensures
        r as nat == be_value(payload@.subrange(from as int, to as int)),
{
    let mut v: u128 = 0;
    let mut k: usize = from;
    proof {
        reveal_with_fuel(pow256, 17);
        assert(pow256(16) == 0x1_0000_0000_0000_0000_0000_0000_0000_0000nat);
        assert(payload@.subrange(from as int, from as int).len() == 0);
    }
    while k < to
        invariant
            from <= k <= to <= payload@.len(),
            to - from <= 16,
            v as nat == be_value(payload@.subrange(from as int, k as int)),
            (v as nat) < pow256((k - from) as nat),
            pow256(16) == 0x1_0000_0000_0000_0000_0000_0000_0000_0000nat,
        decreases to - k,
    {
        let b = payload[k];
        proof {
            let s = payload@.subrange(from as int, k + 1);
            assert(s.drop_last() =~= payload@.subrange(from as int, k as int));
            let p = pow256((k - from) as nat);
            assert(pow256((k + 1 - from) as nat) == 256 * p);
            lemma_pow256_mono((k + 1 - from) as nat, 16);
            assert((v as nat) * 256 + (b as nat) < 256 * p) by (nonlinear_arith)
                requires (v as nat) < p, (b as nat) < 256;
        }
        v = v * 256 + b as u128;
        k = k + 1;
    }
    v
}

fn decode_step(step: &DecodeStep, payload: &[u8], min_payload_len: usize) -> (r: DecodedValue)
    requires
        step_wf(step@, min_payload_len as nat),
        min_payload_len <= payload@.len(),
    ensures
        r@ == decode_step_value(step@, payload@),
{
    match step.byte_range {
        None => DecodedValue::Unsupported,
        Some((start, end)) => {
            let ghost word = payload@.subrange(start as int, end as int);
            match &step.strategy {
                DecodeStrategy::Address => {
                    let b = copy_range(payload, start + 12, end);
                    assert(b@ =~= word.subrange(12, 32));
                    DecodedValue::Address(b)
                },
                DecodeStrategy::UnsignedInt(w) => {
                    let v = read_be(payload, end - (*w / 8) as usize, end);
                    assert(payload@.subrange(end - (*w / 8) as int, end as int) =~= word.subrange(32 - (*w / 8) as int, 32));
                    DecodedValue::UnsignedInt(v)
                },
                DecodeStrategy::Bool => DecodedValue::Bool(payload[start + 31] != 0),
                DecodeStrategy::FixedBytes32 => DecodedValue::FixedBytes32(copy_range(payload, start, end)),
                DecodeStrategy::Unsupported(_) => DecodedValue::Unsupported,
            }
        },
    }
}

/// Decodes a call payload (selector included) by a plan: a payload shorter
/// than the plan's minimum is rejected, any other is read word by word.
pub fn decode_call(plan: &DecodePlan, payload: &[u8]) -> (r: Result<Vec<DecodedValue>, DecodeError>)
    requires
        plan.wf(),
    ensures
        r is Err <==> payload@.len() < plan.min_payload_len,
        r is Err ==> r->Err_0 == (DecodeError::PayloadTooShort { len: payload@.len() as usize, min: plan.min_payload_len }),
        r is Ok ==> r->Ok_0@.len() == plan.steps@.len() && forall|i: int| 0 <= i < plan.steps@.len()
            ==> (#[trigger] r->Ok_0@[i])@ == decode_step_value(plan.steps@[i]@, payload@),
{
    if payload.len() < plan.min_payload_len {
        return Err(DecodeError::PayloadTooShort { len: payload.len(), min: plan.min_payload_len });
    }
    let mut out: Vec<DecodedValue> = Vec::new();
    let mut i: usize = 0;
    while i < plan.steps.len()
        invariant
            plan.wf(),
            plan.min_payload_len <= payload@.len(),
            i <= plan.steps@.len(),
            out@.len() == i,
            forall|j: int| 0 <= j < i ==> (#[trigger] out@[j])@ == decode_step_value(plan.steps@[j]@, payload@),
        decreases plan.steps@.len() - i,
    {
        let v = decode_step(&plan.steps[i], payload, plan.min_payload_len);
        out.push(v);
        i = i + 1;
    }
    Ok(out)
}

/// The Rust statement that generated dispatch code runs to read one
/// parameter from `call_data`, the whole payload. It reads the same bytes as
/// `decode_word` does for the step's word.
pub open spec fn decode_statement_of(s: StepView) -> Seq<char> {
    let n = s.param_name;
    match s.byte_range {
        Some(r) => match s.kind {
            DecodeKind::Address => "let "@ + n + ": [u8; 20] = call_data["@ + decimal_of(r.0 + 12) + ".."@
                + decimal_of(r.1) + "].try_into().unwrap();"@,
            DecodeKind::UnsignedInt(w) => "let "@ + n + " = u"@ + decimal_of(w) + "::from_be_bytes(call_data["@
                + decimal_of((r.1 - w / 8) as nat) + ".."@ + decimal_of(r.1) + "].try_into().unwrap());"@,
            DecodeKind::Bool => "let "@ + n + " = call_data["@ + decimal_of((r.1 - 1) as nat) + "] != 0;"@,
            DecodeKind::FixedBytes32 => "let "@ + n + ": [u8; 32] = call_data["@ + decimal_of(r.0) + ".."@
                + decimal_of(r.1) + "].try_into().unwrap();"@,
            DecodeKind::Unsupported(t) => "// "@ + n + " of type "@ + t
                + " is not decoded here: complete its decoding by hand"@,
        },
        None => match s.kind {
            DecodeKind::Unsupported(t) => "// "@ + n + " of type "@ + t
                + " is not decoded here: complete its decoding by hand"@,
            _ => "// "@ + n + " has no calldata word"@,
        },
    }
}

/// The statement that reads the step's parameter in generated dispatch code.
pub fn decode_statement(step: &DecodeStep) -> (r: String)
    requires
        step_wf(step@, usize::MAX as nat),
    ensures
        r@ == decode_statement_of(step@),
{
    let name = chars_of(step.param_name.as_str());
    let mut out: Vec<char> = Vec::new();
    match (&step.strategy, step.byte_range) {
        (DecodeStrategy::Unsupported(t), _) => {
            push_str(&mut out, "// ");
            push_all(&mut out, &name);
            push_str(&mut out, " of type ");
            push_all(&mut out, &chars_of(t.as_str()));
            push_str(&mut out, " is not decoded here: complete its decoding by hand");
        },
        (_, None) => {
            push_str(&mut out, "// ");
            push_all(&mut out, &name);
            push_str(&mut out, " has no calldata word");
        },
        (DecodeStrategy::Address, Some((start, end))) => {
            push_str(&mut out, "let ");
            push_all(&mut out, &name);
            push_str(&mut out, ": [u8; 20] = call_data[");
            push_all(&mut out, &decimal_chars(start + 12));
            push_str(&mut out, "..");
            push_all(&mut out, &decimal_chars(end));
            push_str(&mut out, "].try_into().unwrap();");
        },
        (DecodeStrategy::UnsignedInt(w), Some((_, end))) => {
            push_str(&mut out, "let ");
            push_all(&mut out, &name);
            push_str(&mut out, " = u");
            push_all(&mut out, &decimal_chars(*w as usize));
            push_str(&mut out, "::from_be_bytes(call_data[");
            push_all(&mut out, &decimal_chars(end - (*w / 8) as usize));
            push_str(&mut out, "..");
            push_all(&mut out, &decimal_chars(end));
            push_str(&mut out, "].try_into().unwrap());");
        },
        (DecodeStrategy::Bool, Some((_, end))) => {
            push_str(&mut out, "let ");
            push_all(&mut out, &name);
            push_str(&mut out, " = call_data[");
            push_all(&mut out, &decimal_chars(end - 1));
            push_str(&mut out, "] != 0;");
        },
        (DecodeStrategy::FixedBytes32, Some((start, end))) => {
            push_str(&mut out, "let ");
            push_all(&mut out, &name);
            push_str(&mut out, ": [u8; 32] = call_data[");
            push_all(&mut out, &decimal_chars(start));
            push_str(&mut out, "..");
            push_all(&mut out, &decimal_chars(end));
            push_str(&mut out, "].try_into().unwrap();");
        },
    }
    assert(out@ =~= decode_statement_of(step@));
    string_of(&out)
}

/// Only the last byte of a word decides how it decodes as a `bool`: nonzero
/// reads as true, zero as false, whatever the other 31 bytes hold.
pub proof fn lemma_bool_reads_last_byte(w1: Seq<u8>, w2: Seq<u8>)
    requires
        w1.len() == 32,
        w2.len() == 32,
        w1[31] == w2[31],
    ensures
        decode_word(DecodeKind::Bool, w1) == decode_word(DecodeKind::Bool, w2),
        decode_word(DecodeKind::Bool, w1) == ValueView::Bool(w1[31] != 0),
{
}

} // verus!
