//! Tables and block numbers.
use papyrus::block::{BlockNumber, StateNumber};
use papyrus::db::{DbError, TableHandle};
use papyrus::felt::{felt_eq, StarkFelt, ZERO};
use papyrus::storage::MarkerKind;

fn felt(n: u128) -> StarkFelt {
    (0, n)
}

#[test]
fn insert_refuses_a_known_key() {
    let mut table: TableHandle<StarkFelt, u64> = TableHandle::new();
    assert_eq!(table.get(&felt(1)), None);
    assert_eq!(table.insert(felt(1), 10), Ok(()));
    assert_eq!(table.insert(felt(1), 11), Err(DbError::KeyExist));
    assert_eq!(table.get(&felt(1)), Some(&10));
    assert_eq!(table.get(&felt(2)), None);
}

#[test]
fn upsert_replaces_and_delete_removes() {
    let mut table: TableHandle<StarkFelt, u64> = TableHandle::new();
    table.upsert(felt(2), 20);
    table.upsert(felt(1), 10);
    table.upsert(felt(2), 21);
    assert_eq!(table.get(&felt(1)), Some(&10));
    assert_eq!(table.get(&felt(2)), Some(&21));
    table.delete(&felt(1));
    table.delete(&felt(7));
    assert_eq!(table.get(&felt(1)), None);
    assert_eq!(table.rows(), &vec![(felt(2), 21)]);
}

#[test]
fn rows_come_in_the_order_of_their_keys() {
    let mut table: TableHandle<StarkFelt, u64> = TableHandle::new();
    for (i, key) in [(1, 0), (0, 5), (0, 2), (2, 1), (1, 9)].into_iter().enumerate() {
        assert_eq!(table.insert(key, i as u64), Ok(()));
    }
    let expected = vec![((0, 2), 2), ((0, 5), 1), ((1, 0), 0), ((1, 9), 4), ((2, 1), 3)];
    assert_eq!(table.rows(), &expected);
}

#[test]
fn markers_are_rows_too() {
    let mut table: TableHandle<MarkerKind, BlockNumber> = TableHandle::new();
    table.upsert(MarkerKind::CompiledClass, BlockNumber(1));
    table.upsert(MarkerKind::State, BlockNumber(2));
    assert_eq!(
        table.rows(),
        &vec![
            (MarkerKind::State, BlockNumber(2)),
            (MarkerKind::CompiledClass, BlockNumber(1))
        ]
    );
}

#[test]
fn cursor_finds_the_closest_row_from_the_left() {
    let mut table: TableHandle<(StarkFelt, BlockNumber), u64> = TableHandle::new();
    table.upsert((felt(1), BlockNumber(3)), 13);
    table.upsert((felt(1), BlockNumber(7)), 17);
    table.upsert((felt(2), BlockNumber(0)), 20);
    let mut cursor = table.cursor();
    assert_eq!(
        cursor.lower_bound(&(felt(1), BlockNumber(5))),
        Some((&(felt(1), BlockNumber(7)), &17))
    );
    assert_eq!(cursor.prev(), Some((&(felt(1), BlockNumber(3)), &13)));
    assert_eq!(cursor.prev(), None);
    assert_eq!(cursor.prev(), None);
    // A row with the key itself is not before it.
    assert_eq!(
        cursor.lower_bound(&(felt(1), BlockNumber(7))),
        Some((&(felt(1), BlockNumber(7)), &17))
    );
    assert_eq!(cursor.prev(), Some((&(felt(1), BlockNumber(3)), &13)));
    // Behind the last row.
    assert_eq!(cursor.lower_bound(&(felt(9), BlockNumber(0))), None);
    assert_eq!(cursor.prev(), Some((&(felt(2), BlockNumber(0)), &20)));
}

#[test]
fn cursor_on_keys_with_storage_keys() {
    let mut table: TableHandle<(StarkFelt, StarkFelt, BlockNumber), u64> = TableHandle::new();
    table.upsert((felt(1), felt(2), BlockNumber(0)), 120);
    table.upsert((felt(1), felt(1), BlockNumber(9)), 119);
    table.upsert((felt(0), felt(9), BlockNumber(9)), 99);
    let mut cursor = table.cursor();
    assert_eq!(
        cursor.lower_bound(&(felt(1), felt(2), BlockNumber(0))),
        Some((&(felt(1), felt(2), BlockNumber(0)), &120))
    );
    assert_eq!(cursor.prev(), Some((&(felt(1), felt(1), BlockNumber(9)), &119)));
    assert_eq!(cursor.prev(), Some((&(felt(0), felt(9), BlockNumber(9)), &99)));
    assert_eq!(cursor.prev(), None);
}

#[test]
fn felts_are_compared_whole() {
    assert!(felt_eq(&(1, 2), &(1, 2)));
    assert!(!felt_eq(&(1, 2), &(1, 3)));
    assert!(!felt_eq(&(1, 2), &(0, 2)));
    assert_eq!(ZERO, (0, 0));
}

#[test]
fn states_lie_between_blocks() {
    let block = BlockNumber(5);
    assert_eq!(BlockNumber::default(), BlockNumber(0));
    assert_eq!(block.next(), BlockNumber(6));
    let before = StateNumber::right_before_block(block);
    let after = StateNumber::right_after_block(block);
    assert_eq!(before, StateNumber(BlockNumber(5)));
    assert_eq!(after, StateNumber(BlockNumber(6)));
    assert!(before.is_before(block));
    assert!(!before.is_after(block));
    assert!(before.is_after(BlockNumber(4)));
    assert!(!after.is_before(block));
    assert!(after.is_after(block));
    assert!(after.is_before(BlockNumber(6)));
    assert_eq!(before.block_after(), BlockNumber(5));
    assert_eq!(after.block_after(), BlockNumber(6));
}
