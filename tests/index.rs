use lending::constants::MAX_BORROW_POSITIONS;
use lending::error::ErrorCode;
use lending::state::{contains_key, same_key, UserGlobalState};

#[test]
fn keys_compare_byte_for_byte() {
    let a = [3u8; 32];
    let mut b = [3u8; 32];
    assert!(same_key(&a, &b));
    b[31] = 4;
    assert!(!same_key(&a, &b));
    assert!(contains_key(&vec![b, a], &a));
    assert!(!contains_key(&vec![b], &a));
}

#[test]
fn positions_are_registered_once_and_removed() {
    let mut index = UserGlobalState::new([1; 32], 7);
    assert_eq!(index.register_position([2; 32]), Ok(()));
    assert_eq!(index.register_position([3; 32]), Ok(()));
    assert_eq!(index.register_position([2; 32]), Ok(()));
    assert_eq!(index.active_positions, vec![[2; 32], [3; 32]]);
    index.remove_position(&[2; 32]);
    assert_eq!(index.active_positions, vec![[3; 32]]);
    index.remove_position(&[9; 32]);
    assert_eq!(index.active_positions, vec![[3; 32]]);
}

#[test]
fn a_full_index_refuses_new_entries() {
    let mut index = UserGlobalState::new([1; 32], 7);
    for i in 0..MAX_BORROW_POSITIONS {
        let mut key = [0u8; 32];
        key[0] = i as u8;
        key[1] = 1;
        assert_eq!(index.register_position(key), Ok(()));
    }
    assert_eq!(index.register_position([200; 32]), Err(ErrorCode::PositionIndexFull));
    let mut known = [0u8; 32];
    known[1] = 1;
    assert_eq!(index.register_position(known), Ok(()));
    assert_eq!(index.active_positions.len(), MAX_BORROW_POSITIONS);
}

#[test]
fn error_messages() {
    assert_eq!(ErrorCode::OverRepayRequest.message(), "Over Repay Request");
    assert_eq!(ErrorCode::StalePrice.message(), "Stale Price");
}
