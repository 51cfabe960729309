use synthesizer::deployment::{Deployment, FunctionKey};
use synthesizer::error::{ErrorKind, MappingError, VmError};
use synthesizer::process::Process;
use synthesizer::program::{Call, Command, Finalize, Function, Mapping, Operand, Program};
use synthesizer::stack::{Stack, VerifyingKey, MAX_CALLS};
use synthesizer::store::{FinalizeOperation, FinalizeStore};
use synthesizer::types::{Identifier, MappingId, ProgramId, Value, ValueType};

const TOKEN: ProgramId = ProgramId { code: 7 };
const BANK: ProgramId = ProgramId { code: 8 };
const BALANCES: Identifier = Identifier { code: 1 };
const MINT: Identifier = Identifier { code: 2 };
const SUPPLY: Identifier = Identifier { code: 3 };
const PAY: Identifier = Identifier { code: 4 };

fn mapping(name: Identifier) -> Mapping {
    Mapping { name, key_type: ValueType::Address, value_type: ValueType::U64 }
}

fn mint() -> Function {
    Function {
        name: MINT,
        input_types: vec![ValueType::Address, ValueType::U64],
        calls: vec![],
        outputs: vec![],
        finalize: Some(Finalize {
            name: MINT,
            arguments: vec![Operand::Register(0), Operand::Register(1)],
            inputs: vec![0, 1],
            register_types: vec![ValueType::Address, ValueType::U64],
            commands: vec![Command::Increment {
                mapping: BALANCES,
                key: Operand::Register(0),
                amount: Operand::Register(1),
            }],
        }),
    }
}

fn sample_program() -> Program {
    Program { id: TOKEN, mappings: vec![mapping(BALANCES)], functions: vec![mint()] }
}

fn deployment_of(program: Program) -> Deployment {
    let verifying_keys = program
        .functions
        .iter()
        .map(|f| FunctionKey { function_name: f.name, verifying_key: VerifyingKey { code: f.name.code + 100 } })
        .collect();
    Deployment { program, verifying_keys }
}

fn id_of(name: Identifier) -> MappingId {
    MappingId { program: TOKEN, name }
}

#[test]
fn test_finalize_deployment() {
    let program = sample_program();
    let mut process = Process::new();
    let deployment = deployment_of(program.copy());
    let mut store = FinalizeStore::new();

    assert!(!process.contains_program(program.id));

    let (stack, _) = process.finalize_deployment(&mut store, &deployment).unwrap();
    process.add_stack(stack);

    assert!(process.contains_program(program.id));
}

#[test]
fn deployment_yields_one_initialization_per_mapping_in_order() {
    let mut program = sample_program();
    program.mappings = vec![mapping(SUPPLY), mapping(BALANCES), mapping(PAY)];
    let process = Process::new();
    let mut store = FinalizeStore::new();
    let (_, operations) = process.finalize_deployment(&mut store, &deployment_of(program)).unwrap();
    assert_eq!(
        operations,
        vec![
            FinalizeOperation::InitializeMapping { mapping: id_of(SUPPLY) },
            FinalizeOperation::InitializeMapping { mapping: id_of(BALANCES) },
            FinalizeOperation::InitializeMapping { mapping: id_of(PAY) },
        ]
    );
    assert!(!store.is_in_batch());
    for name in [SUPPLY, BALANCES, PAY] {
        assert!(store.contains_mapping(id_of(name)));
        assert_eq!(store.get_value(id_of(name), Value::Address(5)), Ok(None));
    }
}

#[test]
fn deployment_without_mappings_yields_no_operation() {
    let mut program = sample_program();
    program.mappings = vec![];
    let process = Process::new();
    let mut store = FinalizeStore::new();
    let (stack, operations) = process.finalize_deployment(&mut store, &deployment_of(program)).unwrap();
    assert!(operations.is_empty());
    assert_eq!(stack.program_id(), TOKEN);
}

#[test]
fn deployment_registers_the_verifying_keys() {
    let process = Process::new();
    let mut store = FinalizeStore::new();
    let (stack, _) = process.finalize_deployment(&mut store, &deployment_of(sample_program())).unwrap();
    assert_eq!(stack.get_verifying_key(MINT), Some(VerifyingKey { code: 102 }));
    assert_eq!(stack.get_verifying_key(PAY), None);
}

#[test]
fn deployment_with_a_key_for_an_unknown_function_fails() {
    let process = Process::new();
    let mut store = FinalizeStore::new();
    let mut deployment = deployment_of(sample_program());
    deployment.verifying_keys.push(FunctionKey { function_name: PAY, verifying_key: VerifyingKey { code: 1 } });
    let error = process.finalize_deployment(&mut store, &deployment).unwrap_err();
    assert_eq!(error, VmError::FunctionNotFound { program_id: TOKEN, function_name: PAY });
    assert_eq!(error.kind(), ErrorKind::Validation);
    assert!(!store.contains_mapping(id_of(BALANCES)));
}

#[test]
fn deployment_of_a_mapping_twice_leaves_no_mapping_behind() {
    let mut program = sample_program();
    program.mappings = vec![mapping(SUPPLY), mapping(BALANCES), mapping(SUPPLY)];
    let process = Process::new();
    let mut store = FinalizeStore::new();
    let error = process.finalize_deployment(&mut store, &deployment_of(program)).unwrap_err();
    assert_eq!(
        error,
        VmError::Mapping { program_id: TOKEN, mapping_name: SUPPLY, refusal: MappingError::AlreadyInitialized }
    );
    assert_eq!(error.kind(), ErrorKind::Execution);
    assert!(!store.is_in_batch());
    assert!(!store.contains_mapping(id_of(SUPPLY)));
    assert!(!store.contains_mapping(id_of(BALANCES)));
}

#[test]
fn deployment_of_a_deployed_program_fails_and_keeps_the_store() {
    let process = Process::new();
    let mut store = FinalizeStore::new();
    process.finalize_deployment(&mut store, &deployment_of(sample_program())).unwrap();
    let error = process.finalize_deployment(&mut store, &deployment_of(sample_program())).unwrap_err();
    assert_eq!(
        error,
        VmError::Mapping { program_id: TOKEN, mapping_name: BALANCES, refusal: MappingError::AlreadyInitialized }
    );
    assert!(store.contains_mapping(id_of(BALANCES)));
}

#[test]
fn deployment_on_a_store_with_an_open_scope_is_refused() {
    let process = Process::new();
    let mut store = FinalizeStore::new();
    store.begin().unwrap();
    let error = process.finalize_deployment(&mut store, &deployment_of(sample_program())).unwrap_err();
    assert_eq!(error, VmError::BatchAlreadyOpen);
    assert!(store.is_in_batch());
    assert!(!store.contains_mapping(id_of(BALANCES)));
}

fn pay(calls: Vec<Call>) -> Function {
    Function {
        name: PAY,
        input_types: vec![ValueType::Address, ValueType::U64],
        calls,
        outputs: vec![Operand::Register(1)],
        finalize: None,
    }
}

fn call_mint(program_id: ProgramId) -> Call {
    Call { program_id, function_name: MINT, arguments: vec![Operand::Register(0), Operand::Register(1)] }
}

#[test]
fn stack_counts_the_calls_of_each_function() {
    let mut process = Process::new();
    let token = Stack::new(&process, &sample_program()).unwrap();
    assert_eq!(token.get_number_of_calls(MINT), Ok(1));
    process.add_stack(token);

    let bank = Program { id: BANK, mappings: vec![], functions: vec![pay(vec![call_mint(TOKEN), call_mint(TOKEN)])] };
    let stack = Stack::new(&process, &bank).unwrap();
    assert_eq!(stack.get_number_of_calls(PAY), Ok(3));
    assert_eq!(
        stack.get_number_of_calls(MINT),
        Err(VmError::FunctionNotFound { program_id: BANK, function_name: MINT })
    );
}

#[test]
fn stack_counts_calls_inside_one_program() {
    let process = Process::new();
    let mut program = sample_program();
    program.functions.push(pay(vec![call_mint(TOKEN)]));
    let stack = Stack::new(&process, &program).unwrap();
    assert_eq!(stack.get_number_of_calls(PAY), Ok(2));
}

#[test]
fn stack_refuses_a_call_of_a_function_declared_later() {
    let process = Process::new();
    let program = Program { id: TOKEN, mappings: vec![], functions: vec![pay(vec![call_mint(TOKEN)]), mint()] };
    assert_eq!(
        Stack::new(&process, &program).err(),
        Some(VmError::FunctionNotFound { program_id: TOKEN, function_name: MINT })
    );
}

#[test]
fn stack_refuses_a_call_into_an_unknown_program() {
    let process = Process::new();
    let bank = Program { id: BANK, mappings: vec![], functions: vec![pay(vec![call_mint(TOKEN)])] };
    assert_eq!(Stack::new(&process, &bank).err(), Some(VmError::ProgramNotFound { program_id: TOKEN }));
}

#[test]
fn stack_refuses_more_calls_than_the_limit() {
    let process = Process::new();
    let mut program = sample_program();
    program.functions.push(pay((0..MAX_CALLS).map(|_| call_mint(TOKEN)).collect()));
    assert_eq!(
        Stack::new(&process, &program).err(),
        Some(VmError::CallLimitExceeded { program_id: TOKEN, function_name: PAY })
    );
    let mut program = sample_program();
    program.functions.push(pay((0..MAX_CALLS - 1).map(|_| call_mint(TOKEN)).collect()));
    assert_eq!(Stack::new(&process, &program).unwrap().get_number_of_calls(PAY), Ok(MAX_CALLS));
}

#[test]
fn stack_gives_functions_and_type_tables() {
    let process = Process::new();
    let mut program = sample_program();
    program.functions.push(pay(vec![]));
    let stack = Stack::new(&process, &program).unwrap();
    assert_eq!(stack.get_function(MINT).unwrap(), &mint());
    assert_eq!(stack.get_function(SUPPLY).err(), Some(VmError::FunctionNotFound { program_id: TOKEN, function_name: SUPPLY }));
    assert_eq!(stack.get_finalize_types(MINT), Ok(vec![ValueType::Address, ValueType::U64]));
    assert_eq!(
        stack.get_finalize_types(PAY),
        Err(VmError::FunctionNotFound { program_id: TOKEN, function_name: PAY })
    );
    assert_eq!(stack.program(), &program);
}

#[test]
fn process_replaces_the_stack_of_a_program() {
    let mut process = Process::new();
    process.add_stack(Stack::new(&process, &sample_program()).unwrap());
    let mut changed = sample_program();
    changed.functions.push(pay(vec![]));
    let stack = Stack::new(&process, &changed).unwrap();
    process.add_stack(stack);
    assert!(process.get_stack(TOKEN).unwrap().get_function(PAY).is_ok());
    assert_eq!(process.get_stack(BANK).err(), Some(VmError::ProgramNotFound { program_id: BANK }));
}
