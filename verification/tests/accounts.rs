use clever_todo::accounts::is_zero_account;

#[test]
fn all_zero_data_is_zero() {
    let data = vec![0u8; 16];
    assert!(is_zero_account(&data));
}

#[test]
fn nonzero_byte_in_scan_is_not_zero() {
    let data = vec![0u8, 5, 0, 0];
    assert!(!is_zero_account(&data));
}

#[test]
fn trailing_nonzero_byte_is_ignored() {
    let data = vec![0u8, 0, 0, 9];
    assert!(is_zero_account(&data));
}

#[test]
fn single_byte_scans_nothing() {
    let data = vec![42u8];
    assert!(is_zero_account(&data));
}
