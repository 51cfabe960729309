use synthesizer::call_stack::CallStack;
use synthesizer::deployment::{Deployment, FunctionKey};
use synthesizer::execution::Execution;
use synthesizer::names::{encode_name, is_letter, is_name_byte, MAX_NAME_LENGTH};
use synthesizer::process::Process;
use synthesizer::program::{Command, Finalize, Function, Mapping, Operand, Program};
use synthesizer::request::PrivateKey;
use synthesizer::rng::Randomness;
use synthesizer::stack::VerifyingKey;
use synthesizer::store::{FinalizeOperation, FinalizeStore};
use synthesizer::types::{Identifier, MappingId, ProgramId, Value, ValueType};

fn name(text: &str) -> Identifier {
    Identifier::from_name(text.as_bytes()).unwrap()
}

#[test]
fn names_encode_to_their_bytes() {
    assert_eq!(encode_name(b"a"), Some(0x61));
    assert_eq!(encode_name(b"ab"), Some(0x6261));
    assert_eq!(encode_name(b"mint"), Some(u32::from_le_bytes(*b"mint") as u64));
    assert_eq!(encode_name(b"balances"), Some(u64::from_le_bytes(*b"balances")));
    assert_eq!(encode_name(b"zzzzzzzz"), Some(0x7a7a7a7a7a7a7a7a));
    assert_eq!(encode_name(b"A_9"), Some(0x395f41));
    assert_eq!(Identifier::from_name(b"mint"), Some(Identifier { code: 0x746e696d }));
    assert_eq!(ProgramId::from_name(b"token"), Some(ProgramId { code: 0x6e656b6f74 }));
    assert_eq!(MAX_NAME_LENGTH, 8);
}

#[test]
fn names_are_letters_digits_and_underscores_after_a_letter() {
    for bad in [&b""[..], b"balances1", b"1a", b"_a", b"a-b", b"a b", b"a\0", b"\xc3\xa9", b"a.b"] {
        assert_eq!(encode_name(bad), None);
        assert_eq!(Identifier::from_name(bad), None);
        assert_eq!(ProgramId::from_name(bad), None);
    }
    for good in [&b"a"[..], b"Z", b"a1", b"a_", b"a_b_c_d1"] {
        assert!(encode_name(good).is_some());
    }
    assert!(is_letter(b'a') && is_letter(b'z') && is_letter(b'A') && is_letter(b'Z'));
    assert!(!is_letter(b'`') && !is_letter(b'{') && !is_letter(b'@') && !is_letter(b'[') && !is_letter(b'0'));
    assert!(is_name_byte(b'0') && is_name_byte(b'9') && is_name_byte(b'_') && is_name_byte(b'q'));
    assert!(!is_name_byte(b'/') && !is_name_byte(b':') && !is_name_byte(b'-') && !is_name_byte(0));
}

#[test]
fn different_names_have_different_codes() {
    let names: [&[u8]; 7] = [b"a", b"aa", b"b", b"ab", b"ba", b"a0", b"balances"];
    for (i, a) in names.iter().enumerate() {
        for (j, b) in names.iter().enumerate() {
            assert_eq!(encode_name(a) == encode_name(b), i == j);
        }
    }
}

fn token() -> Program {
    Program {
        id: ProgramId::from_name(b"token").unwrap(),
        mappings: vec![Mapping { name: name("balances"), key_type: ValueType::Address, value_type: ValueType::U64 }],
        functions: vec![Function {
            name: name("mint"),
            input_types: vec![ValueType::Address, ValueType::U64],
            calls: vec![],
            outputs: vec![],
            finalize: Some(Finalize {
                name: name("mint"),
                arguments: vec![Operand::Register(0), Operand::Register(1)],
                inputs: vec![0, 1],
                register_types: vec![ValueType::Address, ValueType::U64],
                commands: vec![Command::Increment {
                    mapping: name("balances"),
                    key: Operand::Register(0),
                    amount: Operand::Register(1),
                }],
            }),
        }],
    }
}

fn mint(process: &Process, addr: Value, amount: u64, seed: u64) -> Execution {
    let stack = process.get_stack(ProgramId::from_name(b"token").unwrap()).unwrap();
    let key = PrivateKey::new(11, 13);
    let mut rng = Randomness::from_words(vec![seed]);
    let authorization = stack.authorize(process, &key, name("mint"), vec![addr, Value::U64(amount)], &mut rng).unwrap();
    let call_stack = CallStack::execute(authorization).unwrap();
    match stack.execute_function(process, call_stack, &mut rng).unwrap() {
        (_, CallStack::Execute { execution, .. }) => execution,
        _ => unreachable!(),
    }
}

#[test]
fn deploy_then_mint_twice() {
    let mut process = Process::new();
    let mut store = FinalizeStore::new();
    let balances = MappingId { program: ProgramId::from_name(b"token").unwrap(), name: name("balances") };
    let addr = Value::Address(0xa11ce);

    let deployment = Deployment {
        program: token(),
        verifying_keys: vec![FunctionKey { function_name: name("mint"), verifying_key: VerifyingKey { code: 1 } }],
    };
    let (stack, operations) = process.finalize_deployment(&mut store, &deployment).unwrap();
    assert_eq!(operations, vec![FinalizeOperation::InitializeMapping { mapping: balances }]);
    process.add_stack(stack);
    assert_eq!(store.get_value(balances, addr), Ok(None));

    let first = mint(&process, addr, 100, 1);
    assert_eq!(
        process.finalize_execution(&mut store, &first),
        Ok(vec![FinalizeOperation::UpdateKeyValue { mapping: balances, key: addr, value: Value::U64(100) }])
    );
    assert_eq!(store.get_value(balances, addr), Ok(Some(Value::U64(100))));

    let second = mint(&process, addr, 50, 2);
    assert_eq!(
        process.finalize_execution(&mut store, &second),
        Ok(vec![FinalizeOperation::UpdateKeyValue { mapping: balances, key: addr, value: Value::U64(150) }])
    );
    assert_eq!(store.get_value(balances, addr), Ok(Some(Value::U64(150))));
}
