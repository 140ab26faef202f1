use cargo_pvm_contract::abi::{AbiInput, AbiItem, AbiOutput};
use cargo_pvm_contract::decode::{
    build_decode_plan, classify_type, decode_call, decode_statement, DecodeError, DecodeStrategy,
    DecodedValue,
};
use cargo_pvm_contract::dispatch::{
    compile, compile_with, route_call, CompileError, DispatchError, FunctionCodegen, MemoryModel,
    UnsupportedTypes,
};
use cargo_pvm_contract::hash::{
    compute_selector, compute_topic, format_bytes32_multiline, format_bytes_as_hex,
    selector_from_topic,
};
use cargo_pvm_contract::ident::{legalize_identifier, normalize_identifier, IdentCase};
use cargo_pvm_contract::signature::{build_function_signature, SignatureError};

fn input(name: &str, ty: &str) -> AbiInput {
    AbiInput { name: name.to_string(), param_type: ty.to_string(), indexed: None }
}

fn function(name: &str, inputs: Vec<AbiInput>) -> AbiItem {
    AbiItem::Function {
        name: name.to_string(),
        inputs,
        outputs: vec![AbiOutput { name: String::new(), param_type: "uint32".to_string() }],
        state_mutability: "pure".to_string(),
    }
}

fn word_with_last(prefix_byte: u8, last: u8) -> Vec<u8> {
    let mut w = vec![0u8; 32];
    w[30] = prefix_byte;
    w[31] = last;
    w
}

#[test]
fn selector_of_transfer() {
    assert_eq!(compute_selector("transfer(address,uint256)"), [0xa9, 0x05, 0x9c, 0xbb]);
}

#[test]
fn selector_of_balance_of_and_error_string() {
    assert_eq!(compute_selector("balanceOf(address)"), [0x70, 0xa0, 0x82, 0x31]);
    assert_eq!(compute_selector("Error(string)"), [0x08, 0xc3, 0x79, 0xa0]);
}

#[test]
fn topic_of_transfer_event() {
    let topic = compute_topic("Transfer(address,address,uint256)");
    assert_eq!(
        format_bytes_as_hex(&topic),
        "0xdd, 0xf2, 0x52, 0xad, 0x1b, 0xe2, 0xc8, 0x9b, 0x69, 0xc2, 0xb0, 0x68, 0xfc, 0x37, 0x8d, 0xaa, \
0x95, 0x2b, 0xa7, 0xf1, 0x63, 0xc4, 0xa1, 0x16, 0x28, 0xf5, 0x5a, 0x4d, 0xf5, 0x23, 0xb3, 0xef"
    );
}

#[test]
fn hex_formatting() {
    assert_eq!(format_bytes_as_hex(&[]), "");
    assert_eq!(format_bytes_as_hex(&[0x0f]), "0x0f");
    assert_eq!(format_bytes_as_hex(&[0xe4, 0x44, 0xa7, 0x09]), "0xe4, 0x44, 0xa7, 0x09");
    let mut bytes = [0u8; 32];
    for (i, b) in bytes.iter_mut().enumerate() {
        *b = i as u8;
    }
    let text = format_bytes32_multiline(&bytes);
    let lines: Vec<&str> = text.split('\n').collect();
    assert_eq!(lines.len(), 4);
    assert_eq!(lines[0], "0x00, 0x01, 0x02, 0x03, 0x04, 0x05, 0x06, 0x07,");
    assert_eq!(lines[1], "    0x08, 0x09, 0x0a, 0x0b, 0x0c, 0x0d, 0x0e, 0x0f,");
    assert_eq!(lines[3], "    0x18, 0x19, 0x1a, 0x1b, 0x1c, 0x1d, 0x1e, 0x1f");
}

#[test]
fn signatures_keep_order_and_types() {
    assert_eq!(
        build_function_signature("transfer", &[input("to", "address"), input("amount", "uint256")]),
        Ok("transfer(address,uint256)".to_string())
    );
    assert_eq!(build_function_signature("totalSupply", &[]), Ok("totalSupply()".to_string()));
    assert_eq!(
        build_function_signature("f", &[input("", "uint256[]"), input("", "string")]),
        Ok("f(uint256[],string)".to_string())
    );
}

#[test]
fn empty_name_has_no_signature() {
    assert_eq!(build_function_signature("", &[]), Err(SignatureError::EmptySignatureComponent));
    assert_eq!(
        build_function_signature("", &[input("a", "uint8")]),
        Err(SignatureError::EmptySignatureComponent)
    );
}

#[test]
fn identifier_normalization_is_idempotent_on_examples() {
    let once = normalize_identifier("my_function", IdentCase::Snake);
    assert_eq!(once, "my_function");
    assert_eq!(normalize_identifier(&once, IdentCase::Snake), "my_function");
    assert_eq!(normalize_identifier("MyFunction", IdentCase::Pascal), "MyFunction");
}

#[test]
fn identifier_casings() {
    assert_eq!(normalize_identifier("balanceOf", IdentCase::UpperSnake), "BALANCE_OF");
    assert_eq!(normalize_identifier("balanceOf", IdentCase::Snake), "balance_of");
    assert_eq!(normalize_identifier("my token", IdentCase::Pascal), "MyToken");
}

#[test]
fn identifier_edge_cases() {
    assert_eq!(normalize_identifier("", IdentCase::Snake), "_");
    assert_eq!(normalize_identifier("123", IdentCase::UpperSnake), "_123");
    assert_eq!(legalize_identifier("9lives"), "_9lives");
    assert_eq!(legalize_identifier("_x"), "_x");
    assert_eq!(legalize_identifier("ok"), "ok");
}

#[test]
fn type_classification() {
    assert_eq!(classify_type("address"), DecodeStrategy::Address);
    assert_eq!(classify_type("bool"), DecodeStrategy::Bool);
    assert_eq!(classify_type("bytes32"), DecodeStrategy::FixedBytes32);
    assert_eq!(classify_type("uint8"), DecodeStrategy::UnsignedInt(8));
    assert_eq!(classify_type("uint32"), DecodeStrategy::UnsignedInt(32));
    assert_eq!(classify_type("uint128"), DecodeStrategy::UnsignedInt(128));
    assert_eq!(classify_type("uint256"), DecodeStrategy::Unsupported("uint256".to_string()));
    assert_eq!(classify_type("uint7"), DecodeStrategy::Unsupported("uint7".to_string()));
    assert_eq!(classify_type("uint08"), DecodeStrategy::Unsupported("uint08".to_string()));
    assert_eq!(classify_type("uint"), DecodeStrategy::Unsupported("uint".to_string()));
    assert_eq!(classify_type("uint99999999999999999999"), DecodeStrategy::Unsupported("uint99999999999999999999".to_string()));
    assert_eq!(classify_type("string"), DecodeStrategy::Unsupported("string".to_string()));
    assert_eq!(classify_type("int32"), DecodeStrategy::Unsupported("int32".to_string()));
}

#[test]
fn bool_decoding_reads_only_the_last_byte() {
    let plan = build_decode_plan(&[input("flag", "bool")]);
    let mut payload = vec![0x12, 0x34, 0x56, 0x78];
    payload.extend(word_with_last(0x00, 0x01));
    assert_eq!(decode_call(&plan, &payload), Ok(vec![DecodedValue::Bool(true)]));
    let mut payload = vec![0x12, 0x34, 0x56, 0x78];
    payload.extend(word_with_last(0xff, 0x01));
    assert_eq!(decode_call(&plan, &payload), Ok(vec![DecodedValue::Bool(true)]));
    let mut payload = vec![0x12, 0x34, 0x56, 0x78];
    payload.extend(vec![0u8; 32]);
    assert_eq!(decode_call(&plan, &payload), Ok(vec![DecodedValue::Bool(false)]));
    let mut payload = vec![0x12, 0x34, 0x56, 0x78];
    payload.extend(word_with_last(0x01, 0x00));
    assert_eq!(decode_call(&plan, &payload), Ok(vec![DecodedValue::Bool(false)]));
}

#[test]
fn minimum_length_of_two_parameters() {
    let plan = build_decode_plan(&[input("to", "address"), input("amount", "uint64")]);
    assert_eq!(plan.min_payload_len, 68);
    assert_eq!(
        decode_call(&plan, &vec![0u8; 67]),
        Err(DecodeError::PayloadTooShort { len: 67, min: 68 })
    );
    assert!(decode_call(&plan, &vec![0u8; 68]).is_ok());
}

#[test]
fn minimum_length_ignores_dynamic_types() {
    let plan = build_decode_plan(&[input("s", "string"), input("n", "uint8")]);
    assert_eq!(plan.min_payload_len, 68);
    assert_eq!(plan.steps[0].byte_range, None);
    assert_eq!(plan.steps[0].strategy, DecodeStrategy::Unsupported("string".to_string()));
    assert_eq!(plan.steps[1].byte_range, Some((36, 68)));
    assert_eq!(build_decode_plan(&[]).min_payload_len, 4);
}

#[test]
fn decode_plan_names_parameters() {
    let plan = build_decode_plan(&[input("", "uint8"), input("tokenId", "uint128"), input("", "bool")]);
    let names: Vec<&str> = plan.steps.iter().map(|s| s.param_name.as_str()).collect();
    assert_eq!(names, vec!["param_0", "token_id", "param_2"]);
}

#[test]
fn decodes_each_strategy() {
    let plan = build_decode_plan(&[
        input("who", "address"),
        input("n", "uint16"),
        input("big", "uint128"),
        input("h", "bytes32"),
        input("s", "string"),
    ]);
    let mut payload = vec![0xaa, 0xbb, 0xcc, 0xdd];
    let mut who = vec![0xeeu8; 12];
    who.extend((1..=20).map(|b| b as u8));
    payload.extend(who);
    let mut n = vec![0xffu8; 30];
    n.extend([0x01, 0x02]);
    payload.extend(n);
    let mut big = vec![0u8; 16];
    big.extend([0xffu8; 16]);
    payload.extend(big);
    let h: Vec<u8> = (100..132).map(|b| b as u8).collect();
    payload.extend(h.clone());
    payload.extend(vec![7u8; 32]);
    let values = decode_call(&plan, &payload).unwrap();
    assert_eq!(values[0], DecodedValue::Address((1..=20).map(|b| b as u8).collect()));
    assert_eq!(values[1], DecodedValue::UnsignedInt(0x0102));
    assert_eq!(values[2], DecodedValue::UnsignedInt(u128::MAX));
    assert_eq!(values[3], DecodedValue::FixedBytes32(h));
    assert_eq!(values[4], DecodedValue::Unsupported);
}

fn fibonacci_abi() -> Vec<AbiItem> {
    vec![function("fibonacci", vec![input("n", "uint32")])]
}

#[test]
fn fibonacci_end_to_end_manual() {
    let model = compile(&fibonacci_abi(), "Fibonacci", MemoryModel::NoAlloc).unwrap();
    assert_eq!(model.functions.len(), 1);
    let f = &model.functions[0];
    assert_eq!(f.signature, "fibonacci(uint32)");
    assert_eq!(f.selector, compute_selector("fibonacci(uint32)"));
    assert_eq!(f.selector, [0xe4, 0x44, 0xa7, 0x09]);
    assert_eq!(f.selector_hex, "0xe4, 0x44, 0xa7, 0x09");
    match &f.codegen {
        FunctionCodegen::Manual { selector_const, plan } => {
            assert_eq!(selector_const, "FIBONACCI_SELECTOR");
            assert_eq!(plan.min_payload_len, 36);
            assert_eq!(plan.steps.len(), 1);
            assert_eq!(plan.steps[0].strategy, DecodeStrategy::UnsignedInt(32));
            assert_eq!(plan.steps[0].byte_range, Some((4, 36)));
            assert_eq!(plan.steps[0].param_name, "n");
        }
        other => panic!("expected a manual decode, got {:?}", other),
    }
    assert_eq!(model.contract_name_upper, "FIBONACCI");
}

#[test]
fn compile_is_deterministic() {
    let abi = token_abi();
    let a = compile(&abi, "MyToken", MemoryModel::NoAlloc).unwrap();
    let b = compile(&abi, "MyToken", MemoryModel::NoAlloc).unwrap();
    for (x, y) in a.functions.iter().zip(b.functions.iter()) {
        assert_eq!(x.signature, y.signature);
        assert_eq!(x.selector, y.selector);
    }
    for (x, y) in a.events.iter().zip(b.events.iter()) {
        assert_eq!(x.topic, y.topic);
    }
    assert_eq!(a.errors.len(), b.errors.len());
}

fn token_abi() -> Vec<AbiItem> {
    vec![
        AbiItem::Constructor { inputs: vec![input("supply", "uint256")] },
        function("transfer", vec![input("to", "address"), input("amount", "uint256")]),
        AbiItem::Event {
            name: "Transfer".to_string(),
            inputs: vec![input("from", "address"), input("to", "address"), input("value", "uint256")],
        },
        function("balanceOf", vec![input("account", "address")]),
        AbiItem::Error {
            name: "InsufficientBalance".to_string(),
            inputs: vec![input("available", "uint256"), input("required", "uint256")],
        },
    ]
}

#[test]
fn strategies_agree_on_selectors() {
    let abi = token_abi();
    let manual = compile(&abi, "MyToken", MemoryModel::NoAlloc).unwrap();
    let managed = compile(&abi, "MyToken", MemoryModel::AllocWithAlloy).unwrap();
    assert_eq!(manual.functions.len(), 2);
    assert_eq!(managed.functions.len(), 2);
    for (x, y) in manual.functions.iter().zip(managed.functions.iter()) {
        assert_eq!(x.name, y.name);
        assert_eq!(x.signature, y.signature);
        assert_eq!(x.selector, y.selector);
    }
    assert_eq!(manual.events[0].topic, managed.events[0].topic);
    assert_eq!(manual.errors[0].selector, managed.errors[0].selector);
    match &managed.functions[1].codegen {
        FunctionCodegen::Managed { name_snake, call_type } => {
            assert_eq!(name_snake, "balance_of");
            assert_eq!(call_type, "MyToken::balanceOfCall");
        }
        other => panic!("expected a managed decode, got {:?}", other),
    }
    assert!(matches!(manual.functions[1].codegen, FunctionCodegen::Manual { .. }));
}

#[test]
fn events_and_errors_get_constants() {
    let model = compile(&token_abi(), "MyToken", MemoryModel::NoAlloc).unwrap();
    assert_eq!(model.events.len(), 1);
    assert_eq!(model.events[0].signature, "Transfer(address,address,uint256)");
    assert_eq!(model.events[0].const_name, "TRANSFER_EVENT_SIGNATURE");
    assert!(model.events[0].topic_hex.starts_with("0xdd, 0xf2, 0x52, 0xad, 0x1b, 0xe2, 0xc8, 0x9b,\n    0x69"));
    assert_eq!(model.errors.len(), 1);
    assert_eq!(model.errors[0].signature, "InsufficientBalance(uint256,uint256)");
    assert_eq!(model.errors[0].const_name, "INSUFFICIENT_BALANCE_ERROR");
    assert_eq!(model.errors[0].selector, compute_selector("InsufficientBalance(uint256,uint256)"));
    assert_eq!(model.functions[0].selector, [0xa9, 0x05, 0x9c, 0xbb]);
    assert_eq!(model.contract_name_pascal, "MyToken");
}

#[test]
fn empty_name_is_rejected() {
    let abi = vec![
        function("ok", vec![]),
        AbiItem::Constructor { inputs: vec![] },
        AbiItem::Event { name: String::new(), inputs: vec![] },
        function("", vec![]),
    ];
    assert_eq!(
        compile(&abi, "C", MemoryModel::NoAlloc).unwrap_err(),
        CompileError::EmptySignatureComponent { index: 2 }
    );
}

#[test]
fn empty_abi_compiles_to_empty_model() {
    let model = compile(&vec![], "Empty", MemoryModel::AllocWithAlloy).unwrap();
    assert!(model.functions.is_empty() && model.events.is_empty() && model.errors.is_empty());
}

#[test]
fn routing_calls() {
    let model = compile(&token_abi(), "MyToken", MemoryModel::NoAlloc).unwrap();
    assert_eq!(route_call(&model, &[0xa9, 0x05]).unwrap_err(), DispatchError::CallDataTooShort { len: 2 });
    assert_eq!(route_call(&model, &[1, 2, 3, 4]).unwrap_err(), DispatchError::UnknownSelector);
    let mut payload = vec![0x70, 0xa0, 0x82, 0x31];
    payload.extend(vec![0u8; 31]);
    assert_eq!(
        route_call(&model, &payload).unwrap_err(),
        DispatchError::InvalidCallData { function: 1, len: 35, min: 36 }
    );
    payload.push(9);
    let (index, values) = route_call(&model, &payload).unwrap();
    assert_eq!(index, 1);
    let mut expected = vec![0u8; 19];
    expected.push(9);
    assert_eq!(values, vec![DecodedValue::Address(expected)]);
}

#[test]
fn fibonacci_call_is_routed() {
    let model = compile(&fibonacci_abi(), "Fibonacci", MemoryModel::NoAlloc).unwrap();
    let mut payload = vec![0xe4, 0x44, 0xa7, 0x09];
    payload.extend(vec![0u8; 28]);
    payload.extend([0, 0, 0, 10]);
    assert_eq!(route_call(&model, &payload), Ok((0, vec![DecodedValue::UnsignedInt(10)])));
}

#[test]
fn overloaded_functions_collide() {
    let abi = vec![
        function("transfer", vec![input("to", "address")]),
        function("transfer", vec![input("to", "address"), input("amount", "uint256")]),
    ];
    assert_eq!(
        compile(&abi, "C", MemoryModel::NoAlloc).unwrap_err(),
        CompileError::IdentifierCollision { identifier: "TRANSFER_SELECTOR".to_string() }
    );
    assert_eq!(
        compile(&abi, "C", MemoryModel::AllocWithAlloy).unwrap_err(),
        CompileError::IdentifierCollision { identifier: "TRANSFER_SELECTOR".to_string() }
    );
}

#[test]
fn handler_name_collisions_fail_under_both_models() {
    let abi = vec![function("k", vec![]), function("\u{212a}", vec![input("a", "uint8")])];
    for model in [MemoryModel::NoAlloc, MemoryModel::AllocWithAlloy] {
        assert_eq!(
            compile(&abi, "C", model).unwrap_err(),
            CompileError::IdentifierCollision { identifier: "k".to_string() }
        );
    }
}

#[test]
fn differently_cased_names_collide() {
    let abi = vec![function("balanceOf", vec![]), function("balance_of", vec![input("a", "address")])];
    assert_eq!(
        compile(&abi, "C", MemoryModel::NoAlloc).unwrap_err(),
        CompileError::IdentifierCollision { identifier: "BALANCE_OF_SELECTOR".to_string() }
    );
}

#[test]
fn selector_collision_is_reported() {
    let abi = vec![
        function("burn", vec![input("amount", "uint256")]),
        function("collate_propagate_storage", vec![input("x", "bytes16")]),
    ];
    assert_eq!(compute_selector("burn(uint256)"), [0x42, 0x96, 0x6c, 0x68]);
    assert_eq!(compute_selector("collate_propagate_storage(bytes16)"), [0x42, 0x96, 0x6c, 0x68]);
    assert_eq!(
        compile(&abi, "C", MemoryModel::AllocWithAlloy).unwrap_err(),
        CompileError::SelectorCollision {
            first: "burn(uint256)".to_string(),
            second: "collate_propagate_storage(bytes16)".to_string()
        }
    );
}

#[test]
fn event_and_error_of_one_name_do_not_collide() {
    let abi = vec![
        AbiItem::Event { name: "Paused".to_string(), inputs: vec![] },
        AbiItem::Error { name: "Paused".to_string(), inputs: vec![] },
    ];
    let model = compile(&abi, "C", MemoryModel::NoAlloc).unwrap();
    assert_eq!(model.events[0].const_name, "PAUSED_EVENT_SIGNATURE");
    assert_eq!(model.errors[0].const_name, "PAUSED_ERROR");
}

#[test]
fn selector_is_the_topic_prefix() {
    let mut topic = [0u8; 32];
    for (i, b) in topic.iter_mut().enumerate() {
        *b = 200 - i as u8;
    }
    assert_eq!(selector_from_topic(&topic), [200, 199, 198, 197]);
    let hash = compute_topic("transfer(address,uint256)");
    assert_eq!(selector_from_topic(&hash), compute_selector("transfer(address,uint256)"));
}

#[test]
fn unsupported_types_policy() {
    let abi = vec![
        function("fibonacci", vec![input("n", "uint32")]),
        function("greet", vec![input("who", "address"), input("message", "string")]),
    ];
    assert_eq!(
        compile_with(&abi, "C", MemoryModel::NoAlloc, UnsupportedTypes::Reject).unwrap_err(),
        CompileError::UnsupportedParamType { function: "greet".to_string(), param_type: "string".to_string() }
    );
    assert!(compile_with(&abi, "C", MemoryModel::AllocWithAlloy, UnsupportedTypes::Reject).is_ok());
    let lenient = compile_with(&abi, "C", MemoryModel::NoAlloc, UnsupportedTypes::Placeholder).unwrap();
    match &lenient.functions[1].codegen {
        FunctionCodegen::Manual { plan, .. } => {
            assert_eq!(plan.steps[1].strategy, DecodeStrategy::Unsupported("string".to_string()));
            assert_eq!(plan.min_payload_len, 68);
        }
        other => panic!("expected a manual decode, got {:?}", other),
    }
    assert!(compile_with(&fibonacci_abi(), "C", MemoryModel::NoAlloc, UnsupportedTypes::Reject).is_ok());
    let unnamed = vec![function("", vec![input("s", "string")])];
    assert_eq!(
        compile_with(&unnamed, "C", MemoryModel::NoAlloc, UnsupportedTypes::Reject).unwrap_err(),
        CompileError::EmptySignatureComponent { index: 0 }
    );
}

#[test]
fn many_unnamed_parameters_get_decimal_names() {
    let inputs: Vec<AbiInput> = (0..12).map(|_| input("", "bool")).collect();
    let plan = build_decode_plan(&inputs);
    assert_eq!(plan.steps[10].param_name, "param_10");
    assert_eq!(plan.steps[11].param_name, "param_11");
    assert_eq!(plan.steps[11].byte_range, Some((356, 388)));
    assert_eq!(plan.min_payload_len, 388);
    assert_eq!(format_bytes_as_hex(&[0xff, 0x00, 0xa0]), "0xff, 0x00, 0xa0");
}

#[test]
fn decode_statements_read_the_plan_words() {
    let plan = build_decode_plan(&[
        input("who", "address"),
        input("n", "uint32"),
        input("flag", "bool"),
        input("h", "bytes32"),
        input("s", "string"),
    ]);
    let lines: Vec<String> = plan.steps.iter().map(decode_statement).collect();
    assert_eq!(lines[0], "let who: [u8; 20] = call_data[16..36].try_into().unwrap();");
    assert_eq!(lines[1], "let n = u32::from_be_bytes(call_data[64..68].try_into().unwrap());");
    assert_eq!(lines[2], "let flag = call_data[99] != 0;");
    assert_eq!(lines[3], "let h: [u8; 32] = call_data[100..132].try_into().unwrap();");
    assert_eq!(lines[4], "// s of type string is not decoded here: complete its decoding by hand");
}
