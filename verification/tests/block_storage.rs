use storage_cli::storage::block_storage::BlockStorage;
use storage_cli::storage::BlockError;

#[test]
fn new_block_store_has_the_given_number_of_empty_slots() {
    let store = BlockStorage::new(5, 16);
    assert_eq!(store.list(), &vec![None, None, None, None, None]);
    assert_eq!(store.block_size(), 16);
    for index in 0..5 {
        assert_eq!(store.read(index), None);
    }
}

#[test]
fn write_then_read_gives_the_payload() {
    let mut store = BlockStorage::new(5, 16);
    assert_eq!(store.write(0, "short"), Ok(()));
    assert_eq!(store.read(0), Some(&"short".to_string()));
}

#[test]
fn delete_then_read_reports_empty() {
    let mut store = BlockStorage::new(5, 16);
    assert_eq!(store.write(0, "short"), Ok(()));
    assert_eq!(store.delete(0), Ok(()));
    assert_eq!(store.read(0), None);
}

#[test]
fn write_overwrites_an_occupied_slot() {
    let mut store = BlockStorage::new(2, 16);
    assert_eq!(store.write(1, "first"), Ok(()));
    assert_eq!(store.write(1, "second"), Ok(()));
    assert_eq!(store.read(1), Some(&"second".to_string()));
    assert_eq!(store.list(), &vec![None, Some("second".to_string())]);
}

#[test]
fn write_at_the_capacity_reports_an_invalid_index() {
    let mut store = BlockStorage::new(5, 16);
    assert_eq!(store.write(5, "x"), Err(BlockError::InvalidIndex));
    assert_eq!(store.write(6, "x"), Err(BlockError::InvalidIndex));
    assert_eq!(store.write(usize::MAX, "x"), Err(BlockError::InvalidIndex));
    assert_eq!(store.list(), &vec![None, None, None, None, None]);
}

#[test]
fn write_of_seventeen_bytes_into_sixteen_is_refused() {
    let mut store = BlockStorage::new(5, 16);
    assert_eq!(
        store.write(0, "0123456789ABCDEFX"),
        Err(BlockError::TooLarge { max: 16 })
    );
    assert_eq!(store.read(0), None);
}

#[test]
fn write_of_exactly_the_block_size_is_accepted() {
    let mut store = BlockStorage::new(5, 16);
    assert_eq!(store.write(4, "0123456789ABCDEF"), Ok(()));
    assert_eq!(store.read(4), Some(&"0123456789ABCDEF".to_string()));
}

#[test]
fn a_refused_write_keeps_what_the_slot_held() {
    let mut store = BlockStorage::new(5, 16);
    assert_eq!(store.write(2, "kept"), Ok(()));
    assert_eq!(
        store.write(2, "this_string_is_longer_than_sixteen_bytes"),
        Err(BlockError::TooLarge { max: 16 })
    );
    assert_eq!(store.read(2), Some(&"kept".to_string()));
}

#[test]
fn the_index_is_examined_before_the_size() {
    let mut store = BlockStorage::new(1, 2);
    assert_eq!(store.write(1, "too long"), Err(BlockError::InvalidIndex));
    assert_eq!(store.write(0, "too long"), Err(BlockError::TooLarge { max: 2 }));
}

#[test]
fn the_size_is_counted_in_bytes_not_characters() {
    let mut store = BlockStorage::new(1, 4);
    // two characters, four bytes
    assert_eq!(store.write(0, "\u{e9}\u{e9}"), Ok(()));
    // three characters, six bytes
    assert_eq!(
        store.write(0, "\u{e9}\u{e9}\u{e9}"),
        Err(BlockError::TooLarge { max: 4 })
    );
    // one character, four bytes
    assert_eq!(store.write(0, "\u{1F600}"), Ok(()));
    // four characters, five bytes
    assert_eq!(store.write(0, "abc\u{e9}"), Err(BlockError::TooLarge { max: 4 }));
    assert_eq!(store.read(0), Some(&"\u{1F600}".to_string()));
}

#[test]
fn read_does_not_tell_an_empty_slot_from_a_missing_one() {
    let store = BlockStorage::new(5, 16);
    assert_eq!(store.read(4), None);
    assert_eq!(store.read(5), None);
    assert_eq!(store.read(usize::MAX), None);
}

#[test]
fn delete_of_an_empty_slot_succeeds() {
    let mut store = BlockStorage::new(5, 16);
    assert_eq!(store.delete(3), Ok(()));
    assert_eq!(store.delete(3), Ok(()));
    assert_eq!(store.list(), &vec![None, None, None, None, None]);
}

#[test]
fn delete_past_the_end_reports_an_invalid_index() {
    let mut store = BlockStorage::new(5, 16);
    assert_eq!(store.write(4, "x"), Ok(()));
    assert_eq!(store.delete(5), Err(BlockError::InvalidIndex));
    assert_eq!(store.list().len(), 5);
    assert_eq!(store.read(4), Some(&"x".to_string()));
}

#[test]
fn list_shows_all_slots_in_index_order() {
    let mut store = BlockStorage::new(5, 16);
    assert_eq!(store.write(2, "hello"), Ok(()));
    assert_eq!(store.write(0, "a"), Ok(()));
    assert_eq!(
        store.list(),
        &vec![Some("a".to_string()), None, Some("hello".to_string()), None, None]
    );
}

#[test]
fn the_number_of_slots_never_changes_and_payloads_stay_within_the_limit() {
    let mut store = BlockStorage::new(3, 4);
    let payloads = ["", "a", "abcd", "abcde", "\u{e9}\u{e9}", "\u{e9}\u{e9}a"];
    for round in 0..4 {
        for (k, payload) in payloads.iter().enumerate() {
            let _ = store.write((k + round) % 5, payload);
            let _ = store.delete((k * 2 + round) % 7);
            assert_eq!(store.list().len(), 3);
            assert_eq!(store.block_size(), 4);
            for slot in store.list() {
                if let Some(data) = slot {
                    assert!(data.len() <= 4);
                }
            }
        }
    }
}

#[test]
fn a_store_without_slots_refuses_every_write() {
    let mut store = BlockStorage::new(0, 16);
    assert!(store.list().is_empty());
    assert_eq!(store.write(0, "x"), Err(BlockError::InvalidIndex));
    assert_eq!(store.delete(0), Err(BlockError::InvalidIndex));
    assert_eq!(store.read(0), None);
}

#[test]
fn a_block_size_of_zero_takes_only_the_empty_payload() {
    let mut store = BlockStorage::new(1, 0);
    assert_eq!(store.write(0, "x"), Err(BlockError::TooLarge { max: 0 }));
    assert_eq!(store.write(0, ""), Ok(()));
    assert_eq!(store.read(0), Some(&String::new()));
}
