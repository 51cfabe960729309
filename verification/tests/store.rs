use synthesizer::error::{MappingError, VmError};
use synthesizer::store::{FinalizeOperation, FinalizeStore};
use synthesizer::types::{Identifier, MappingId, ProgramId, Value};

const PROGRAM: ProgramId = ProgramId { code: 3 };
const LEDGER: Identifier = Identifier { code: 10 };
const OTHER: Identifier = Identifier { code: 11 };

fn ledger() -> MappingId {
    MappingId { program: PROGRAM, name: LEDGER }
}

fn open_store() -> FinalizeStore {
    let mut store = FinalizeStore::new();
    store.begin().unwrap();
    assert_eq!(
        store.initialize_mapping(PROGRAM, LEDGER),
        Ok(FinalizeOperation::InitializeMapping { mapping: ledger() })
    );
    store
}

#[test]
fn new_store_is_empty_and_closed() {
    let store = FinalizeStore::new();
    assert!(!store.is_in_batch());
    assert!(!store.contains_mapping(ledger()));
    assert_eq!(store.get_value(ledger(), Value::U64(1)), Err(MappingError::NotInitialized));
}

#[test]
fn mutation_outside_a_scope_is_refused() {
    let mut store = FinalizeStore::new();
    assert_eq!(store.initialize_mapping(PROGRAM, LEDGER), Err(MappingError::NoOpenBatch));
    assert_eq!(store.insert_key_value(ledger(), Value::U64(1), Value::U64(2)), Err(MappingError::NoOpenBatch));
    assert_eq!(store.update_key_value(ledger(), Value::U64(1), Value::U64(2)), Err(MappingError::NoOpenBatch));
    assert_eq!(store.remove_key_value(ledger(), Value::U64(1)), Err(MappingError::NoOpenBatch));
    assert!(!store.contains_mapping(ledger()));
}

#[test]
fn scope_cannot_be_opened_twice() {
    let mut store = FinalizeStore::new();
    assert_eq!(store.begin(), Ok(()));
    assert_eq!(store.begin(), Err(VmError::BatchAlreadyOpen));
    assert!(store.is_in_batch());
    store.commit();
    assert_eq!(store.begin(), Ok(()));
}

#[test]
fn mapping_is_initialized_once() {
    let mut store = open_store();
    assert_eq!(store.initialize_mapping(PROGRAM, LEDGER), Err(MappingError::AlreadyInitialized));
    assert_eq!(
        store.initialize_mapping(PROGRAM, OTHER),
        Ok(FinalizeOperation::InitializeMapping { mapping: MappingId { program: PROGRAM, name: OTHER } })
    );
    assert_eq!(
        store.initialize_mapping(ProgramId { code: 4 }, LEDGER),
        Ok(FinalizeOperation::InitializeMapping { mapping: MappingId { program: ProgramId { code: 4 }, name: LEDGER } })
    );
}

#[test]
fn insert_update_and_remove_follow_the_keys() {
    let mut store = open_store();
    let (k, v, w) = (Value::Address(1), Value::U64(10), Value::U64(20));
    assert_eq!(store.get_value(ledger(), k), Ok(None));
    assert_eq!(store.remove_key_value(ledger(), k), Err(MappingError::KeyNotFound));
    assert_eq!(
        store.insert_key_value(ledger(), k, v),
        Ok(FinalizeOperation::InsertKeyValue { mapping: ledger(), key: k, value: v })
    );
    assert_eq!(store.insert_key_value(ledger(), k, w), Err(MappingError::KeyExists));
    assert_eq!(store.get_value(ledger(), k), Ok(Some(v)));
    assert_eq!(
        store.update_key_value(ledger(), k, w),
        Ok(FinalizeOperation::UpdateKeyValue { mapping: ledger(), key: k, value: w })
    );
    assert_eq!(store.get_value(ledger(), k), Ok(Some(w)));
    // an update of a key that holds nothing makes it
    let fresh = Value::Address(2);
    assert_eq!(
        store.update_key_value(ledger(), fresh, v),
        Ok(FinalizeOperation::UpdateKeyValue { mapping: ledger(), key: fresh, value: v })
    );
    assert_eq!(
        store.remove_key_value(ledger(), k),
        Ok(FinalizeOperation::RemoveKeyValue { mapping: ledger(), key: k })
    );
    assert_eq!(store.get_value(ledger(), k), Ok(None));
    assert_eq!(store.get_value(ledger(), fresh), Ok(Some(v)));
    // keys of different types are different keys
    assert_eq!(store.get_value(ledger(), Value::U64(2)), Ok(None));
}

#[test]
fn writes_need_an_initialized_mapping() {
    let mut store = open_store();
    let other = MappingId { program: PROGRAM, name: OTHER };
    assert_eq!(store.insert_key_value(other, Value::U64(1), Value::U64(1)), Err(MappingError::NotInitialized));
    assert_eq!(store.update_key_value(other, Value::U64(1), Value::U64(1)), Err(MappingError::NotInitialized));
    assert_eq!(store.remove_key_value(other, Value::U64(1)), Err(MappingError::NotInitialized));
    assert_eq!(store.get_value(other, Value::U64(1)), Err(MappingError::NotInitialized));
}

#[test]
fn commit_makes_the_writes_of_the_scope_visible() {
    let mut store = open_store();
    store.update_key_value(ledger(), Value::U64(1), Value::U64(2)).unwrap();
    store.commit();
    assert!(!store.is_in_batch());
    assert_eq!(store.get_value(ledger(), Value::U64(1)), Ok(Some(Value::U64(2))));
    // committing without a scope changes nothing
    store.commit();
    assert_eq!(store.get_value(ledger(), Value::U64(1)), Ok(Some(Value::U64(2))));
}

#[test]
fn abort_restores_the_state_before_the_scope() {
    let mut store = open_store();
    store.update_key_value(ledger(), Value::U64(1), Value::U64(2)).unwrap();
    store.commit();

    store.begin().unwrap();
    store.update_key_value(ledger(), Value::U64(1), Value::U64(3)).unwrap();
    store.insert_key_value(ledger(), Value::U64(5), Value::U64(6)).unwrap();
    store.initialize_mapping(PROGRAM, OTHER).unwrap();
    store.remove_key_value(ledger(), Value::U64(1)).unwrap();
    assert_eq!(store.get_value(ledger(), Value::U64(1)), Ok(None));
    store.abort();

    assert!(!store.is_in_batch());
    assert_eq!(store.get_value(ledger(), Value::U64(1)), Ok(Some(Value::U64(2))));
    assert_eq!(store.get_value(ledger(), Value::U64(5)), Ok(None));
    assert!(!store.contains_mapping(MappingId { program: PROGRAM, name: OTHER }));
}

#[test]
fn removed_mapping_takes_its_entries_along() {
    let mut store = open_store();
    let other = MappingId { program: PROGRAM, name: OTHER };
    store.initialize_mapping(PROGRAM, OTHER).unwrap();
    for i in 0..5 {
        store.update_key_value(ledger(), Value::U64(i), Value::U64(i + 10)).unwrap();
        store.update_key_value(other, Value::U64(i), Value::U64(i + 20)).unwrap();
    }
    assert_eq!(
        store.remove_mapping(PROGRAM, LEDGER),
        Ok(FinalizeOperation::RemoveMapping { mapping: ledger() })
    );
    assert!(!store.contains_mapping(ledger()));
    assert!(store.contains_mapping(other));
    assert_eq!(store.get_value(ledger(), Value::U64(1)), Err(MappingError::NotInitialized));
    assert_eq!(store.remove_mapping(PROGRAM, LEDGER), Err(MappingError::NotInitialized));
    for i in 0..5 {
        assert_eq!(store.get_value(other, Value::U64(i)), Ok(Some(Value::U64(i + 20))));
    }
    // initialized again, the mapping is empty
    store.initialize_mapping(PROGRAM, LEDGER).unwrap();
    for i in 0..5 {
        assert_eq!(store.get_value(ledger(), Value::U64(i)), Ok(None));
    }
    store.commit();
    assert_eq!(store.remove_mapping(PROGRAM, OTHER), Err(MappingError::NoOpenBatch));
    store.begin().unwrap();
    store.remove_mapping(PROGRAM, OTHER).unwrap();
    store.abort();
    assert_eq!(store.get_value(other, Value::U64(2)), Ok(Some(Value::U64(22))));
}
