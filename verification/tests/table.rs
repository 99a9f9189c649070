use content_ledger::content_registry::{contains_account, contains_bytes, copy_bytes};
use content_ledger::snapshot::{accounts_distinct, bytes_distinct};
use content_ledger::table::{bytes_equal, Key, Table};

fn bytes(text: &str) -> Vec<u8> {
    text.as_bytes().to_vec()
}

#[test]
fn keys_are_the_same_when_their_values_are() {
    assert!(7u64.same(&7));
    assert!(!7u64.same(&8));
    assert!((1u64, 2u64).same(&(1, 2)));
    assert!(!(1u64, 2u64).same(&(2, 1)));
    assert!(!(1u64, 2u64).same(&(1, 3)));
    assert!(bytes("ab").same(&bytes("ab")));
    assert!(!bytes("ab").same(&bytes("abc")));
    assert!(!bytes("ab").same(&bytes("ac")));
    assert!((1u64, bytes("u")).same(&(1, bytes("u"))));
    assert!(!(1u64, bytes("u")).same(&(2, bytes("u"))));
    assert!(!(1u64, bytes("u")).same(&(1, bytes("v"))));
}

#[test]
fn bytes_equal_compares_length_and_content() {
    assert!(bytes_equal(&vec![], &vec![]));
    assert!(bytes_equal(&bytes("abc"), &bytes("abc")));
    assert!(!bytes_equal(&bytes("abc"), &bytes("abd")));
    assert!(!bytes_equal(&bytes("abc"), &bytes("ab")));
    assert!(!bytes_equal(&bytes(""), &bytes("a")));
    assert!(!bytes_equal(&bytes("xbc"), &bytes("abc")));
}

#[test]
fn copy_bytes_copies() {
    assert_eq!(copy_bytes(&bytes("")), bytes(""));
    assert_eq!(copy_bytes(&bytes("hello")), bytes("hello"));
}

#[test]
fn contains_account_finds_what_is_there() {
    assert!(!contains_account(&vec![], 1));
    assert!(contains_account(&vec![3, 1, 2], 1));
    assert!(contains_account(&vec![3, 1, 2], 2));
    assert!(contains_account(&vec![3, 1, 2], 3));
    assert!(!contains_account(&vec![3, 1, 2], 4));
}

#[test]
fn contains_bytes_finds_what_is_there() {
    let strings = vec![bytes("a"), bytes("bc"), bytes("")];
    assert!(contains_bytes(&strings, &bytes("a")));
    assert!(contains_bytes(&strings, &bytes("bc")));
    assert!(contains_bytes(&strings, &bytes("")));
    assert!(!contains_bytes(&strings, &bytes("b")));
    assert!(!contains_bytes(&vec![], &bytes("")));
}

#[test]
fn accounts_distinct_sees_repetitions() {
    assert!(accounts_distinct(&vec![]));
    assert!(accounts_distinct(&vec![5]));
    assert!(accounts_distinct(&vec![5, 6, 7]));
    assert!(!accounts_distinct(&vec![5, 6, 5]));
    assert!(!accounts_distinct(&vec![5, 5]));
    assert!(!accounts_distinct(&vec![1, 2, 3, 3]));
}

#[test]
fn bytes_distinct_sees_repetitions() {
    assert!(bytes_distinct(&vec![]));
    assert!(bytes_distinct(&vec![bytes("a"), bytes("ab"), bytes("")]));
    assert!(!bytes_distinct(&vec![bytes("a"), bytes("ab"), bytes("a")]));
    assert!(!bytes_distinct(&vec![bytes(""), bytes("")]));
}

#[test]
fn table_insert_get_and_replace() {
    let mut table: Table<u64, u128> = Table::new();
    assert_eq!(table.len(), 0);
    assert!(!table.contains_key(&1));
    assert_eq!(table.get(&1), None);
    table.insert(1, 10);
    table.insert(2, 20);
    assert_eq!(table.len(), 2);
    assert!(table.contains_key(&1));
    assert_eq!(table.get(&1), Some(&10));
    assert_eq!(table.get(&2), Some(&20));
    assert_eq!(table.get(&3), None);
    table.insert(1, 11);
    assert_eq!(table.len(), 2);
    assert_eq!(table.get(&1), Some(&11));
    assert_eq!(table.get(&2), Some(&20));
    assert_eq!(table.entry(0), &(1, 11));
    assert_eq!(table.entry(1), &(2, 20));
}

#[test]
fn table_remove_takes_one_entry_out() {
    let mut table: Table<(u64, u64), u128> = Table::new();
    table.insert((1, 2), 12);
    table.insert((2, 1), 21);
    table.insert((3, 3), 33);
    assert_eq!(table.remove(&(9, 9)), None);
    assert_eq!(table.len(), 3);
    assert_eq!(table.remove(&(2, 1)), Some(21));
    assert_eq!(table.len(), 2);
    assert_eq!(table.get(&(2, 1)), None);
    assert_eq!(table.get(&(1, 2)), Some(&12));
    assert_eq!(table.get(&(3, 3)), Some(&33));
    assert_eq!(table.remove(&(2, 1)), None);
    assert_eq!(table.into_entries(), vec![((1, 2), 12), ((3, 3), 33)]);
}

#[test]
fn table_with_byte_string_keys() {
    let mut table: Table<Vec<u8>, u128> = Table::new();
    table.insert(bytes("Qm1"), 1);
    table.insert(bytes("Qm"), 2);
    table.insert(bytes(""), 3);
    assert_eq!(table.get(&bytes("Qm1")), Some(&1));
    assert_eq!(table.get(&bytes("Qm")), Some(&2));
    assert_eq!(table.get(&bytes("")), Some(&3));
    assert_eq!(table.get(&bytes("Q")), None);
}

#[test]
fn table_from_entries_wants_distinct_keys() {
    let table = Table::<u64, u128>::from_entries(vec![(1, 10), (2, 20), (3, 30)]).expect("distinct");
    assert_eq!(table.get(&2), Some(&20));
    assert_eq!(table.len(), 3);
    assert!(Table::<u64, u128>::from_entries(vec![(1, 10), (2, 20), (1, 30)]).is_none());
    assert!(Table::<u64, u128>::from_entries(vec![(1, 10), (1, 10)]).is_none());
    assert!(Table::<u64, u128>::from_entries(vec![]).is_some());
    assert!(Table::<(u64, Vec<u8>), u128>::from_entries(vec![
        ((1, bytes("a")), 1),
        ((1, bytes("b")), 2),
        ((2, bytes("a")), 3),
    ])
    .is_some());
    assert!(Table::<(u64, Vec<u8>), u128>::from_entries(vec![
        ((1, bytes("a")), 1),
        ((2, bytes("a")), 3),
        ((1, bytes("a")), 2),
    ])
    .is_none());
}
