use std::collections::HashMap;
use vida_ledger::balance::Balance;
use vida_ledger::database_service::{DatabaseService, InvalidArgument, StoreCommand};

/// A store double: current contents and contents at the last flush.
struct ModelStore {
    data: HashMap<Vec<u8>, Vec<u8>>,
    saved: HashMap<Vec<u8>, Vec<u8>>,
}

impl ModelStore {
    fn new() -> ModelStore {
        ModelStore { data: HashMap::new(), saved: HashMap::new() }
    }

    fn run(&mut self, commands: Vec<StoreCommand>) {
        for c in commands {
            match c {
                StoreCommand::Put { key, value } => {
                    self.data.insert(key, value);
                }
                StoreCommand::Flush => self.saved = self.data.clone(),
                StoreCommand::Revert => self.data = self.saved.clone(),
            }
        }
    }

    fn get(&self, key: &[u8]) -> Option<Vec<u8>> {
        self.data.get(key).cloned()
    }

    fn balance(&self, address: &[u8]) -> Vec<u8> {
        DatabaseService::get_balance(address, &self.get(address)).unwrap().to_be_bytes()
    }
}

fn set(db: &mut DatabaseService, store: &mut ModelStore, address: &[u8], amount: u64) {
    db.set_balance(address, &Balance::from_u64(amount)).unwrap();
    store.run(db.take_commands());
}

fn transfer(
    db: &mut DatabaseService,
    store: &mut ModelStore,
    sender: &[u8],
    receiver: &[u8],
    amount: u64,
) -> Result<bool, InvalidArgument> {
    let r = db.transfer(
        sender,
        receiver,
        &Balance::from_u64(amount),
        &store.get(sender),
        &store.get(receiver),
    );
    store.run(db.take_commands());
    r
}

const A: &[u8] = &[0xaa, 0x01];
const B: &[u8] = &[0xbb, 0x02];

#[test]
fn unknown_address_has_zero_balance() {
    let r = DatabaseService::get_balance(&[1, 2, 3], &None).unwrap();
    assert_eq!(r.to_be_bytes(), vec![0]);
    assert_eq!(r.to_decimal_string(), "0");
}

#[test]
fn empty_address_is_invalid() {
    assert_eq!(DatabaseService::get_balance(&[], &None).unwrap_err(), InvalidArgument::EmptyAddress);
    let mut db = DatabaseService::new();
    assert_eq!(db.set_balance(&[], &Balance::zero()), Err(InvalidArgument::EmptyAddress));
    assert!(db.take_commands().is_empty());
}

#[test]
fn stored_record_is_read_big_endian() {
    let r = DatabaseService::get_balance(A, &Some(vec![0x01, 0x00])).unwrap();
    assert_eq!(r.to_decimal_string(), "256");
    let empty = DatabaseService::get_balance(A, &Some(vec![])).unwrap();
    assert_eq!(empty.to_decimal_string(), "0");
}

#[test]
fn set_balance_writes_shortest_big_endian_record() {
    let mut db = DatabaseService::new();
    db.set_balance(A, &Balance::from_u64(1_000_000_000_000)).unwrap();
    let cmds = db.take_commands();
    assert_eq!(
        cmds,
        vec![StoreCommand::Put { key: A.to_vec(), value: vec![0xe8, 0xd4, 0xa5, 0x10, 0x00] }]
    );
    db.set_balance(A, &Balance::zero()).unwrap();
    assert_eq!(db.take_commands(), vec![StoreCommand::Put { key: A.to_vec(), value: vec![0] }]);
}

#[test]
fn transfer_moves_amount_and_conserves_total() {
    let mut db = DatabaseService::new();
    let mut store = ModelStore::new();
    set(&mut db, &mut store, A, 100);
    set(&mut db, &mut store, B, 7);
    assert_eq!(transfer(&mut db, &mut store, A, B, 40), Ok(true));
    assert_eq!(store.balance(A), vec![60]);
    assert_eq!(store.balance(B), vec![47]);
}

#[test]
fn transfer_of_whole_balance_leaves_zero() {
    let mut db = DatabaseService::new();
    let mut store = ModelStore::new();
    set(&mut db, &mut store, A, 300);
    assert_eq!(transfer(&mut db, &mut store, A, B, 300), Ok(true));
    assert_eq!(store.balance(A), vec![0]);
    assert_eq!(store.balance(B), vec![0x01, 0x2c]);
}

#[test]
fn transfer_with_insufficient_funds_changes_nothing() {
    let mut db = DatabaseService::new();
    let mut store = ModelStore::new();
    set(&mut db, &mut store, A, 10);
    set(&mut db, &mut store, B, 5);
    let r = db.transfer(A, B, &Balance::from_u64(11), &store.get(A), &store.get(B));
    assert_eq!(r, Ok(false));
    assert!(db.take_commands().is_empty());
    assert_eq!(store.balance(A), vec![10]);
    assert_eq!(store.balance(B), vec![5]);
}

#[test]
fn transfer_from_unknown_address_is_refused() {
    let mut db = DatabaseService::new();
    let r = db.transfer(A, B, &Balance::from_u64(1), &None, &None);
    assert_eq!(r, Ok(false));
    assert!(db.take_commands().is_empty());
}

#[test]
fn transfer_to_oneself_keeps_balance() {
    let mut db = DatabaseService::new();
    let mut store = ModelStore::new();
    set(&mut db, &mut store, A, 50);
    assert_eq!(transfer(&mut db, &mut store, A, A, 20), Ok(true));
    assert_eq!(store.balance(A), vec![50]);
}

#[test]
fn transfer_with_empty_addresses_is_invalid() {
    let mut db = DatabaseService::new();
    let one = Balance::from_u64(1);
    assert_eq!(db.transfer(&[], B, &one, &None, &None), Err(InvalidArgument::EmptySender));
    assert_eq!(db.transfer(A, &[], &one, &None, &None), Err(InvalidArgument::EmptyReceiver));
    assert!(db.take_commands().is_empty());
}

#[test]
fn last_checked_block_round_trips_through_its_record() {
    let mut db = DatabaseService::new();
    db.set_last_checked_block(0x0102_0304_0506_0708);
    let cmds = db.take_commands();
    assert_eq!(
        cmds,
        vec![StoreCommand::Put {
            key: b"lastCheckedBlock".to_vec(),
            value: vec![1, 2, 3, 4, 5, 6, 7, 8],
        }]
    );
    let value = match &cmds[0] {
        StoreCommand::Put { value, .. } => value.clone(),
        _ => unreachable!(),
    };
    assert_eq!(DatabaseService::get_last_checked_block(&Some(value)), 0x0102_0304_0506_0708);
}

#[test]
fn last_checked_block_defaults_to_zero() {
    assert_eq!(DatabaseService::get_last_checked_block(&None), 0);
    assert_eq!(DatabaseService::get_last_checked_block(&Some(vec![1, 2, 3])), 0);
    assert_eq!(
        DatabaseService::get_last_checked_block(&Some(vec![0, 0, 0, 0, 0, 0, 0, 9, 0xff])),
        9
    );
}

#[test]
fn block_root_hash_key_is_prefix_and_decimal() {
    assert_eq!(DatabaseService::block_root_hash_key(42), b"blockRootHash_42".to_vec());
    assert_eq!(DatabaseService::block_root_hash_key(0), b"blockRootHash_0".to_vec());
    assert_eq!(
        DatabaseService::block_root_hash_key(u64::MAX),
        b"blockRootHash_18446744073709551615".to_vec()
    );
    assert_eq!(DatabaseService::last_checked_block_key(), b"lastCheckedBlock".to_vec());
}

#[test]
fn set_block_root_hash_refuses_empty_digest() {
    let mut db = DatabaseService::new();
    assert_eq!(db.set_block_root_hash(3, &[]), Err(InvalidArgument::EmptyRootHash));
    assert!(db.take_commands().is_empty());
    assert_eq!(db.set_block_root_hash(3, &[9, 9]), Ok(()));
    assert_eq!(
        db.take_commands(),
        vec![StoreCommand::Put { key: b"blockRootHash_3".to_vec(), value: vec![9, 9] }]
    );
}

#[test]
fn revert_discards_writes_since_flush() {
    let mut db = DatabaseService::new();
    let mut store = ModelStore::new();
    set(&mut db, &mut store, A, 100);
    db.set_last_checked_block(4);
    db.flush();
    store.run(db.take_commands());
    assert_eq!(transfer(&mut db, &mut store, A, B, 30), Ok(true));
    db.set_last_checked_block(5);
    db.revert_unsaved_changes();
    assert_eq!(db.take_commands().last(), Some(&StoreCommand::Revert));
    store.run(vec![StoreCommand::Revert]);
    assert_eq!(store.balance(A), vec![100]);
    assert_eq!(store.balance(B), vec![0]);
    let pos = store.get(&DatabaseService::last_checked_block_key());
    assert_eq!(DatabaseService::get_last_checked_block(&pos), 4);
}
