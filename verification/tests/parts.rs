use erc721::balances::BalanceTable;
use erc721::{AccountId, Transfer};

fn account(byte: u8) -> AccountId {
    AccountId::from_bytes([byte; 32])
}

#[test]
fn null_account_is_all_zero_bytes() {
    assert_eq!(AccountId::null().bytes, [0u8; 32]);
    assert!(AccountId::null().is_null());
    assert!(AccountId::from_bytes([0u8; 32]).is_null());
}

#[test]
fn one_nonzero_byte_makes_a_real_account() {
    for at in [0usize, 1, 15, 30, 31] {
        let mut bytes = [0u8; 32];
        bytes[at] = 1;
        assert!(!AccountId::from_bytes(bytes).is_null());
    }
}

#[test]
fn same_compares_every_byte() {
    let a = account(7);
    assert!(a.same(&account(7)));
    assert!(!a.same(&account(8)));
    for at in [0usize, 16, 31] {
        let mut bytes = [7u8; 32];
        bytes[at] = 9;
        assert!(!a.same(&AccountId::from_bytes(bytes)));
        assert!(!AccountId::from_bytes(bytes).same(&a));
    }
}

#[test]
fn from_bytes_keeps_the_bytes() {
    let mut bytes = [0u8; 32];
    for (i, b) in bytes.iter_mut().enumerate() {
        *b = i as u8;
    }
    assert_eq!(AccountId::from_bytes(bytes).bytes, bytes);
}

#[test]
fn balance_table_starts_empty() {
    let t = BalanceTable::new();
    assert_eq!(t.get(&account(1)), None);
    assert_eq!(t.get(&AccountId::null()), None);
}

#[test]
fn balance_table_insert_then_get() {
    let mut t = BalanceTable::new();
    t.insert(account(1), 5);
    t.insert(account(2), 9);
    assert_eq!(t.get(&account(1)), Some(5));
    assert_eq!(t.get(&account(2)), Some(9));
    assert_eq!(t.get(&account(3)), None);
}

#[test]
fn balance_table_insert_replaces() {
    let mut t = BalanceTable::new();
    t.insert(account(1), 5);
    t.insert(account(2), 9);
    t.insert(account(1), 6);
    assert_eq!(t.get(&account(1)), Some(6));
    assert_eq!(t.get(&account(2)), Some(9));
    t.insert(account(1), 0);
    assert_eq!(t.get(&account(1)), Some(0));
}

#[test]
fn balance_table_remove() {
    let mut t = BalanceTable::new();
    t.insert(account(1), 5);
    t.insert(account(2), 9);
    t.insert(account(3), 1);
    t.remove(&account(2));
    assert_eq!(t.get(&account(1)), Some(5));
    assert_eq!(t.get(&account(2)), None);
    assert_eq!(t.get(&account(3)), Some(1));
    t.remove(&account(2));
    assert_eq!(t.get(&account(2)), None);
    t.remove(&account(1));
    t.remove(&account(3));
    assert_eq!(t.get(&account(1)), None);
    assert_eq!(t.get(&account(3)), None);
}

#[test]
fn mint_notification_comes_from_the_null_account() {
    let ev = Transfer::minted(account(1), 4);
    assert_eq!(ev.from, Some(AccountId::null()));
    assert_eq!(ev.to, Some(account(1)));
    assert_eq!(ev.id, 4);
}

#[test]
fn burn_notification_goes_to_the_null_account() {
    let ev = Transfer::burned(account(1), 4);
    assert_eq!(ev.from, Some(account(1)));
    assert_eq!(ev.to, Some(AccountId::null()));
    assert_eq!(ev.id, 4);
}

#[test]
fn transfer_notification_names_both_parties() {
    let ev = Transfer::moved(account(1), account(2), 9);
    assert_eq!(ev, Transfer { from: Some(account(1)), to: Some(account(2)), id: 9 });
}
