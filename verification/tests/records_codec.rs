use filecache::Cache;
use filecache::CacheError;
use filecache::Records;

#[test]
fn empty_table_encodes_to_four_zero_bytes() {
    let r = Records::default();
    assert_eq!(r.save(), vec![0, 0, 0, 0]);
}

#[test]
fn one_entry_encodes_exactly() {
    let mut r = Records::default();
    r.insert(b"a".to_vec(), 1);
    let expected = vec![
        1, 0, 0, 0, // one entry
        1, 0, 0, 0, // key length one
        97, // the key
        1, 0, 0, 0, 0, 0, 0, 0, // the counter
    ];
    assert_eq!(r.save(), expected);
}

#[test]
fn negative_counter_encodes_in_twos_complement() {
    let mut r = Records::default();
    r.insert(b"a".to_vec(), -1);
    let expected = vec![
        1, 0, 0, 0, 1, 0, 0, 0, 97, 255, 255, 255, 255, 255, 255, 255, 255,
    ];
    assert_eq!(r.save(), expected);
}

#[test]
fn decode_reverses_encode() {
    let mut r = Records::default();
    r.insert(b"test".to_vec(), -40);
    r.insert(b"other".to_vec(), 7);
    let loaded = Records::load(&r.save()).expect("decoding an encoding must succeed");
    assert_eq!(loaded.len(), 2);
    assert_eq!(loaded.lookup(b"test"), Some(-40));
    assert_eq!(loaded.lookup(b"other"), Some(7));
}

#[test]
fn truncated_input_is_rejected() {
    assert_eq!(Records::load(&[]).unwrap_err(), CacheError::Decode);
    assert_eq!(Records::load(&[1, 0]).unwrap_err(), CacheError::Decode);
    assert_eq!(Records::load(&[1, 0, 0, 0]).unwrap_err(), CacheError::Decode);
    assert_eq!(
        Records::load(&[1, 0, 0, 0, 1, 0, 0, 0, 97]).unwrap_err(),
        CacheError::Decode
    );
}

#[test]
fn trailing_bytes_are_rejected() {
    let mut r = Records::default();
    r.insert(b"a".to_vec(), 1);
    let mut bytes = r.save();
    bytes.push(0);
    assert_eq!(Records::load(&bytes).unwrap_err(), CacheError::Decode);
}

#[test]
fn insert_replaces_an_existing_key() {
    let mut r = Records::default();
    r.insert(b"a".to_vec(), 1);
    r.insert(b"a".to_vec(), 2);
    assert_eq!(r.len(), 1);
    assert_eq!(r.lookup(b"a"), Some(2));
}

#[test]
fn lookup_of_a_missing_key_is_none() {
    let mut r = Records::default();
    r.insert(b"a".to_vec(), 1);
    assert_eq!(r.lookup(b"b"), None);
    assert_eq!(Records::default().lookup(b"a"), None);
}
