use synthesizer::call_stack::{Authorization, CallStack};
use synthesizer::deployment::Deployment;
use synthesizer::error::{CommandError, ErrorKind, VmError};
use synthesizer::execution::{Execution, Transition};
use synthesizer::process::Process;
use synthesizer::program::{Call, Command, Finalize, Function, Mapping, Operand, Program};
use synthesizer::request::{
    absorb, message, types_commitment, PrivateKey, Request, Signature, DIGEST_BASE, GENERATOR,
};
use synthesizer::rng::Randomness;
use synthesizer::stack::{Stack, MAX_CALLS};
use synthesizer::store::{FinalizeOperation, FinalizeStore};
use synthesizer::types::{Identifier, MappingId, ProgramId, Value, ValueType, FIELD_MODULUS};

const TOKEN: ProgramId = ProgramId { code: 7 };
const BANK: ProgramId = ProgramId { code: 8 };
const BALANCES: Identifier = Identifier { code: 1 };
const MINT: Identifier = Identifier { code: 2 };
const PAY: Identifier = Identifier { code: 4 };
const SPLIT: Identifier = Identifier { code: 6 };
const ADDR: Value = Value::Address(77);

fn key() -> PrivateKey {
    PrivateKey::new(123_456_789, 987_654_321)
}

fn mint() -> Function {
    Function {
        name: MINT,
        input_types: vec![ValueType::Address, ValueType::U64],
        calls: vec![],
        outputs: vec![Operand::Register(1), Operand::Literal(Value::Boolean(true))],
        finalize: Some(Finalize {
            name: MINT,
            arguments: vec![Operand::Register(0), Operand::Register(1)],
            inputs: vec![0, 1],
            register_types: vec![ValueType::Address, ValueType::U64],
            commands: vec![Command::Increment {
                mapping: BALANCES,
                key: Operand::Register(0),
                amount: Operand::Register(1),
            }],
        }),
    }
}

fn token_program() -> Program {
    Program {
        id: TOKEN,
        mappings: vec![Mapping { name: BALANCES, key_type: ValueType::Address, value_type: ValueType::U64 }],
        functions: vec![mint()],
    }
}

fn call(program_id: ProgramId, function_name: Identifier, amount: Operand) -> Call {
    Call { program_id, function_name, arguments: vec![Operand::Register(0), amount] }
}

fn caller(name: Identifier, calls: Vec<Call>) -> Function {
    Function {
        name,
        input_types: vec![ValueType::Address, ValueType::U64],
        calls,
        outputs: vec![Operand::Register(0)],
        finalize: None,
    }
}

// bank: pay mints the amount and then 1; split pays 2 and mints 3.
fn bank_program() -> Program {
    Program {
        id: BANK,
        mappings: vec![],
        functions: vec![
            caller(PAY, vec![
                call(TOKEN, MINT, Operand::Register(1)),
                call(TOKEN, MINT, Operand::Literal(Value::U64(1))),
            ]),
            caller(SPLIT, vec![
                call(BANK, PAY, Operand::Literal(Value::U64(2))),
                call(TOKEN, MINT, Operand::Literal(Value::U64(3))),
            ]),
        ],
    }
}

fn world() -> (Process, FinalizeStore) {
    let mut process = Process::new();
    let mut store = FinalizeStore::new();
    for program in [token_program(), bank_program()] {
        let deployment = Deployment { program, verifying_keys: vec![] };
        let (stack, _) = process.finalize_deployment(&mut store, &deployment).unwrap();
        process.add_stack(stack);
    }
    (process, store)
}

fn words(n: u64) -> Randomness {
    Randomness::from_words((1..=n).map(|i| i * 1_000_003).collect())
}

fn fmul(a: u64, b: u64) -> u64 {
    ((a as u128 * b as u128) % FIELD_MODULUS as u128) as u64
}

fn fadd(a: u64, b: u64) -> u64 {
    ((a as u128 + b as u128) % FIELD_MODULUS as u128) as u64
}

fn digest(start: u64, words: &[u64]) -> u64 {
    words.iter().fold(start, |d, w| fadd(fmul(d, DIGEST_BASE), *w))
}

fn expected_request(program_id: ProgramId, function_name: Identifier, amount: u64, word: u64) -> Request {
    let (sk, r) = (123_456_789u64, 987_654_321u64);
    let tcm = digest(0, &[4, 2]);
    let msg = digest(0, &[program_id.code, function_name.code, tcm, 4, 77, 2, amount]);
    let address = fmul(GENERATOR, sk);
    let nonce = fadd(word, r);
    let challenge = digest(0, &[fmul(GENERATOR, nonce), address, msg]);
    Request {
        program_id,
        function_name,
        inputs: vec![ADDR, Value::U64(amount)],
        signer: address,
        types_commitment: tcm,
        signature: Signature { challenge, response: fadd(nonce, fmul(challenge, sk)) },
    }
}

#[test]
fn digest_absorbs_a_word_by_its_formula() {
    assert_eq!(absorb(0, 5), 5);
    assert_eq!(absorb(1, 0), DIGEST_BASE);
    assert_eq!(absorb(3, 4), 3 * DIGEST_BASE + 4);
    assert_eq!(absorb(FIELD_MODULUS - 1, 0), FIELD_MODULUS - DIGEST_BASE);
    assert_eq!(absorb(0, u64::MAX), 7);
    assert_eq!(types_commitment(&vec![]), 0);
    assert_eq!(types_commitment(&vec![ValueType::Address, ValueType::U64]), 4 * DIGEST_BASE + 2);
    assert_eq!(
        message(TOKEN, MINT, &vec![Value::Boolean(true)], &vec![ValueType::Boolean]),
        digest(0, &[7, 2, 3, 3, 1])
    );
}

#[test]
fn key_signs_by_its_formula() {
    let key = PrivateKey::new(2, 3);
    assert_eq!(key.address(), 14);
    // nonce 10 + 3, commitment 7 * 13, challenge over (91, 14, 5)
    let challenge = digest(0, &[91, 14, 5]);
    assert_eq!(key.sign(5, 10), Signature { challenge, response: fadd(13, fmul(challenge, 2)) });
    assert_ne!(key.sign(5, 10), key.sign(5, 11));
    assert_ne!(key.sign(5, 10), key.sign(6, 10));
}

#[test]
fn request_is_signed_with_one_word() {
    let mut rng = words(2);
    let request = Request::sign(
        &key(),
        TOKEN,
        MINT,
        vec![ADDR, Value::U64(100)],
        &vec![ValueType::Address, ValueType::U64],
        &mut rng,
    )
    .unwrap();
    assert_eq!(request, expected_request(TOKEN, MINT, 100, 1_000_003));
    assert_eq!(rng.remaining(), 1);
    assert_eq!(request.copy(), request);
}

#[test]
fn signed_request_verifies_and_altered_request_does_not() {
    let types = vec![ValueType::Address, ValueType::U64];
    let sign = |word| {
        Request::sign(&key(), TOKEN, MINT, vec![ADDR, Value::U64(100)], &types, &mut Randomness::from_words(vec![word]))
            .unwrap()
    };
    for word in [0, 1, FIELD_MODULUS - 1, FIELD_MODULUS, u64::MAX] {
        assert!(sign(word).verify(&types));
    }
    let request = sign(5);
    assert!(request.signature.verify(request.signer, message(TOKEN, MINT, &request.inputs, &types)));
    assert!(!request.signature.verify(request.signer + 1, message(TOKEN, MINT, &request.inputs, &types)));
    assert!(!request.signature.verify(request.signer, message(TOKEN, PAY, &request.inputs, &types)));
    assert!(!request.verify(&vec![ValueType::Address, ValueType::Field]));

    let mut other_inputs = sign(5);
    other_inputs.inputs[1] = Value::U64(101);
    assert!(!other_inputs.verify(&types));
    let mut other_function = sign(5);
    other_function.function_name = PAY;
    assert!(!other_function.verify(&types));
    let mut other_program = sign(5);
    other_program.program_id = BANK;
    assert!(!other_program.verify(&types));
    let mut other_signer = sign(5);
    other_signer.signer = PrivateKey::new(1, 1).address();
    assert!(!other_signer.verify(&types));
    let mut other_response = sign(5);
    other_response.signature.response ^= 1;
    assert!(!other_response.verify(&types));
    let mut other_commitment = sign(5);
    other_commitment.types_commitment += 1;
    assert!(!other_commitment.verify(&types));
}

#[test]
fn request_with_unfit_inputs_draws_no_word() {
    let types = vec![ValueType::Address, ValueType::U64];
    let mut rng = words(1);
    assert_eq!(
        Request::sign(&key(), TOKEN, MINT, vec![ADDR], &types, &mut rng),
        Err(VmError::InputCountMismatch { program_id: TOKEN, function_name: MINT, expected: 2, found: 1 })
    );
    assert_eq!(
        Request::sign(&key(), TOKEN, MINT, vec![ADDR, Value::Field(1)], &types, &mut rng),
        Err(VmError::InputTypeMismatch { program_id: TOKEN, function_name: MINT, index: 1 })
    );
    assert_eq!(
        Request::sign(&key(), TOKEN, MINT, vec![Value::Field(FIELD_MODULUS)], &vec![ValueType::Field], &mut rng),
        Err(VmError::InputTypeMismatch { program_id: TOKEN, function_name: MINT, index: 0 })
    );
    assert_eq!(rng.remaining(), 1);
    assert!(Request::sign(&key(), TOKEN, MINT, vec![ADDR, Value::U64(1)], &types, &mut rng).is_ok());
    assert_eq!(
        Request::sign(&key(), TOKEN, MINT, vec![ADDR, Value::U64(1)], &types, &mut rng),
        Err(VmError::RandomnessExhausted)
    );
}

#[test]
fn authorization_of_a_function_without_calls_is_its_request() {
    let (process, _) = world();
    let mut rng = words(3);
    let stack = process.get_stack(TOKEN).unwrap();
    let authorization = stack.authorize(&process, &key(), MINT, vec![ADDR, Value::U64(100)], &mut rng).unwrap();
    assert_eq!(authorization.requests, vec![expected_request(TOKEN, MINT, 100, 1_000_003)]);
    assert_eq!(authorization.len(), 1);
    assert_eq!(rng.remaining(), 2);
}

#[test]
fn authorization_is_determined_by_the_random_words() {
    let (process, _) = world();
    let stack = process.get_stack(BANK).unwrap();
    let inputs = || vec![ADDR, Value::U64(9)];
    let first = stack.authorize(&process, &key(), SPLIT, inputs(), &mut words(8)).unwrap();
    let second = stack.authorize(&process, &key(), SPLIT, inputs(), &mut words(8)).unwrap();
    assert_eq!(first, second);
    let other = stack
        .authorize(&process, &key(), SPLIT, inputs(), &mut Randomness::from_words(vec![5; 8]))
        .unwrap();
    assert_ne!(first.requests[0].signature, other.requests[0].signature);
    assert_eq!(first.requests[0].inputs, other.requests[0].inputs);
}

#[test]
fn authorization_holds_the_whole_call_chain() {
    let (process, _) = world();
    let mut rng = words(8);
    let stack = process.get_stack(BANK).unwrap();
    let authorization = stack.authorize(&process, &key(), SPLIT, vec![ADDR, Value::U64(9)], &mut rng).unwrap();
    // split signs pay(2) and mint(3); mint(3) is processed next and signs nothing; pay signs mint(2), mint(1).
    assert_eq!(
        authorization.requests,
        vec![
            expected_request(BANK, SPLIT, 9, 1_000_003),
            expected_request(BANK, PAY, 2, 2_000_006),
            expected_request(TOKEN, MINT, 3, 3_000_009),
            expected_request(TOKEN, MINT, 2, 4_000_012),
            expected_request(TOKEN, MINT, 1, 5_000_015),
        ]
    );
    assert_eq!(rng.remaining(), 3);
    assert_eq!(stack.get_number_of_calls(SPLIT), Ok(5));
}

#[test]
fn authorization_fails_on_what_the_function_does_not_take() {
    let (process, _) = world();
    let stack = process.get_stack(TOKEN).unwrap();
    let error = stack.authorize(&process, &key(), PAY, vec![], &mut words(1)).unwrap_err();
    assert_eq!(error, VmError::FunctionNotFound { program_id: TOKEN, function_name: PAY });
    assert_eq!(error.kind(), ErrorKind::Validation);
    assert_eq!(
        stack.authorize(&process, &key(), MINT, vec![ADDR], &mut words(1)),
        Err(VmError::InputCountMismatch { program_id: TOKEN, function_name: MINT, expected: 2, found: 1 })
    );
    assert_eq!(
        stack.authorize(&process, &key(), MINT, vec![Value::U64(1), Value::U64(1)], &mut words(1)),
        Err(VmError::InputTypeMismatch { program_id: TOKEN, function_name: MINT, index: 0 })
    );
    assert_eq!(
        stack.authorize(&process, &key(), MINT, vec![ADDR, Value::U64(1)], &mut words(0)),
        Err(VmError::RandomnessExhausted)
    );
    let bank = process.get_stack(BANK).unwrap();
    let mut rng = words(2);
    assert_eq!(
        bank.authorize(&process, &key(), PAY, vec![ADDR, Value::U64(1)], &mut rng),
        Err(VmError::RandomnessExhausted)
    );
    assert_eq!(rng.remaining(), 0);
}

#[test]
fn authorization_fails_on_a_body_that_cannot_be_read() {
    let process = Process::new();
    let mut broken = caller(PAY, vec![]);
    broken.outputs = vec![Operand::Register(2)];
    let mut literal = caller(SPLIT, vec![]);
    literal.outputs = vec![Operand::Literal(Value::Field(FIELD_MODULUS))];
    let program = Program { id: BANK, mappings: vec![], functions: vec![broken, literal] };
    let stack = Stack::new(&process, &program).unwrap();
    assert_eq!(
        stack.authorize(&process, &key(), PAY, vec![ADDR, Value::U64(1)], &mut words(1)),
        Err(VmError::Operand { program_id: BANK, function_name: PAY, cause: CommandError::UndefinedRegister })
    );
    assert_eq!(
        stack.authorize(&process, &key(), SPLIT, vec![ADDR, Value::U64(1)], &mut words(1)),
        Err(VmError::Operand { program_id: BANK, function_name: SPLIT, cause: CommandError::TypeMismatch })
    );
}

#[test]
fn call_stack_without_a_request_has_nothing_to_run() {
    let (process, _) = world();
    let stack = process.get_stack(TOKEN).unwrap();
    let empty = CallStack::Authorize { requests: vec![], private_key: key(), authorization: Authorization::new(vec![]) };
    assert_eq!(stack.execute_function(&process, empty, &mut words(1)).err(), Some(VmError::NoPendingRequest));
}

#[test]
fn call_stack_starts_with_the_first_request() {
    let request = expected_request(TOKEN, MINT, 1, 1);
    match CallStack::authorize(request.copy(), key()) {
        CallStack::Authorize { requests, authorization, .. } => {
            assert_eq!(requests, vec![request.copy()]);
            assert_eq!(authorization.requests, vec![request.copy()]);
        }
        _ => unreachable!(),
    }
    let two = || Authorization::new(vec![request.copy(), expected_request(TOKEN, MINT, 2, 2)]);
    match CallStack::execute(two()) {
        Ok(CallStack::Execute { requests, authorization, taken, execution }) => {
            assert_eq!(requests, vec![request.copy()]);
            assert_eq!(authorization, two());
            assert_eq!(taken, 1);
            assert!(execution.is_empty());
        }
        _ => unreachable!(),
    }
    match CallStack::verify(two(), Execution { transitions: vec![minted(1)] }) {
        Ok(CallStack::Verify { requests, authorization, taken, execution, verified }) => {
            assert_eq!(requests, vec![request.copy()]);
            assert_eq!(authorization, two());
            assert_eq!((taken, verified), (1, 0));
            assert_eq!(execution.transitions, vec![minted(1)]);
        }
        _ => unreachable!(),
    }
    assert_eq!(CallStack::execute(Authorization::new(vec![])).err(), Some(VmError::NoPendingRequest));
    assert_eq!(
        CallStack::verify(Authorization::new(vec![]), Execution { transitions: vec![] }).err(),
        Some(VmError::NoPendingRequest)
    );
}

#[test]
fn run_stops_at_the_limit_on_calls() {
    let (process, _) = world();
    let stack = process.get_stack(TOKEN).unwrap();
    let request = expected_request(TOKEN, MINT, 1, 1);
    let call_stack = |n: usize| CallStack::Authorize {
        requests: (0..n).map(|_| request.copy()).collect(),
        private_key: key(),
        authorization: Authorization::new(vec![]),
    };
    assert!(stack.execute_function(&process, call_stack(MAX_CALLS), &mut words(0)).is_ok());
    assert_eq!(
        stack.execute_function(&process, call_stack(MAX_CALLS + 1), &mut words(0)).err(),
        Some(VmError::CallLimitExceeded { program_id: TOKEN, function_name: MINT })
    );
}

fn execute(process: &Process, authorization: Authorization) -> Result<(Vec<Value>, Execution), VmError> {
    let stack = process.get_stack(authorization.requests[0].program_id)?;
    let call_stack = CallStack::execute(authorization)?;
    match stack.execute_function(process, call_stack, &mut words(0))? {
        (response, CallStack::Execute { requests, taken, authorization, execution }) => {
            assert!(requests.is_empty());
            assert_eq!(taken, authorization.len());
            Ok((response.outputs, execution))
        }
        _ => unreachable!(),
    }
}

fn minted(amount: u64) -> Transition {
    Transition {
        program_id: TOKEN,
        function_name: MINT,
        inputs: vec![ADDR, Value::U64(amount)],
        outputs: vec![Value::U64(amount), Value::Boolean(true)],
        finalize: Some(vec![ADDR, Value::U64(amount)]),
    }
}

fn called(function_name: Identifier, amount: u64) -> Transition {
    Transition {
        program_id: BANK,
        function_name,
        inputs: vec![ADDR, Value::U64(amount)],
        outputs: vec![ADDR],
        finalize: None,
    }
}

#[test]
fn authorized_mint_is_executed_and_finalized() {
    let (process, mut store) = world();
    let stack = process.get_stack(TOKEN).unwrap();
    let balances = MappingId { program: TOKEN, name: BALANCES };
    for (amount, total) in [(100, 100), (50, 150)] {
        let authorization = stack.authorize(&process, &key(), MINT, vec![ADDR, Value::U64(amount)], &mut words(1)).unwrap();
        let (outputs, execution) = execute(&process, authorization).unwrap();
        assert_eq!(outputs, vec![Value::U64(amount), Value::Boolean(true)]);
        assert_eq!(execution.transitions, vec![minted(amount)]);
        assert_eq!(
            process.finalize_execution(&mut store, &execution),
            Ok(vec![FinalizeOperation::UpdateKeyValue { mapping: balances, key: ADDR, value: Value::U64(total) }])
        );
        assert_eq!(store.get_value(balances, ADDR), Ok(Some(Value::U64(total))));
    }
}

#[test]
fn executed_chain_ends_with_the_entry_transition() {
    let (process, mut store) = world();
    let stack = process.get_stack(BANK).unwrap();
    let authorization = stack.authorize(&process, &key(), SPLIT, vec![ADDR, Value::U64(9)], &mut words(5)).unwrap();
    let (outputs, execution) = execute(&process, authorization).unwrap();
    assert_eq!(outputs, vec![ADDR]);
    assert_eq!(
        execution.transitions,
        vec![minted(2), minted(1), called(PAY, 2), minted(3), called(SPLIT, 9)]
    );
    assert_eq!(execution.len(), 5);
    assert!(!execution.is_empty());
    assert_eq!(execution.peek(), Some(&called(SPLIT, 9)));
    let balances = MappingId { program: TOKEN, name: BALANCES };
    let update = |value| FinalizeOperation::UpdateKeyValue { mapping: balances, key: ADDR, value: Value::U64(value) };
    assert_eq!(process.finalize_execution(&mut store, &execution), Ok(vec![update(2), update(3), update(6)]));
}

#[test]
fn execution_takes_only_what_was_authorized() {
    let (process, _) = world();
    let stack = process.get_stack(BANK).unwrap();
    let authorize = || stack.authorize(&process, &key(), PAY, vec![ADDR, Value::U64(9)], &mut words(3)).unwrap();

    let mut short = authorize();
    short.requests.pop();
    assert_eq!(
        execute(&process, short).err(),
        Some(VmError::AuthorizationMismatch { program_id: TOKEN, function_name: MINT })
    );
    let mut altered = authorize();
    altered.requests[1].inputs[1] = Value::U64(10);
    assert_eq!(
        execute(&process, altered).err(),
        Some(VmError::AuthorizationMismatch { program_id: TOKEN, function_name: MINT })
    );
    let mut renamed = authorize();
    renamed.requests[2].function_name = PAY;
    assert_eq!(
        execute(&process, renamed).err(),
        Some(VmError::AuthorizationMismatch { program_id: TOKEN, function_name: MINT })
    );
    assert!(execute(&process, authorize()).is_ok());
}

#[test]
fn execution_refuses_a_request_that_its_signer_did_not_sign() {
    let (process, _) = world();
    let stack = process.get_stack(BANK).unwrap();
    let authorize = || stack.authorize(&process, &key(), PAY, vec![ADDR, Value::U64(9)], &mut words(3)).unwrap();

    let mut forged_entry = authorize();
    forged_entry.requests[0].signature.challenge ^= 1;
    assert_eq!(
        execute(&process, forged_entry).err(),
        Some(VmError::InvalidRequest { program_id: BANK, function_name: PAY })
    );
    let mut forged_call = authorize();
    forged_call.requests[2].signer ^= 1;
    assert_eq!(
        execute(&process, forged_call).err(),
        Some(VmError::InvalidRequest { program_id: TOKEN, function_name: MINT })
    );
}

fn verify(process: &Process, authorization: Authorization, execution: Execution) -> Result<usize, VmError> {
    let stack = process.get_stack(authorization.requests[0].program_id)?;
    let call_stack = CallStack::verify(authorization, execution)?;
    match stack.execute_function(process, call_stack, &mut words(0))? {
        (_, CallStack::Verify { verified, .. }) => Ok(verified),
        _ => unreachable!(),
    }
}

#[test]
fn verification_holds_each_call_against_its_transition() {
    let (process, _) = world();
    let stack = process.get_stack(BANK).unwrap();
    let authorize = || stack.authorize(&process, &key(), PAY, vec![ADDR, Value::U64(9)], &mut words(3)).unwrap();
    let (_, execution) = execute(&process, authorize()).unwrap();
    assert_eq!(execution.transitions, vec![minted(9), minted(1), called(PAY, 9)]);
    assert_eq!(verify(&process, authorize(), execution), Ok(3));

    let forged = Execution { transitions: vec![minted(9), minted(2), called(PAY, 9)] };
    assert_eq!(
        verify(&process, authorize(), forged),
        Err(VmError::TransitionMismatch { program_id: TOKEN, function_name: MINT })
    );
    let short = Execution { transitions: vec![minted(1), called(PAY, 9)] };
    assert_eq!(
        verify(&process, authorize(), short),
        Err(VmError::TransitionMismatch { program_id: TOKEN, function_name: MINT })
    );
    let mut unrecorded = minted(9);
    unrecorded.finalize = None;
    let bare = Execution { transitions: vec![unrecorded, minted(1), called(PAY, 9)] };
    assert_eq!(
        verify(&process, authorize(), bare),
        Err(VmError::TransitionMismatch { program_id: TOKEN, function_name: MINT })
    );
}
