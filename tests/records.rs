use monero_frost_keys::error::KeyError;
use monero_frost_keys::keys::Scalar;
use monero_frost_keys::records::{bundle_of, record_for, records_for, KeyShareRecord};
use monero_frost_keys::recovery::derive_identity;

fn record(serialized: &str) -> KeyShareRecord {
    KeyShareRecord { address: None, view: None, serialized: serialized.to_string() }
}

#[test]
fn record_holds_lowercase_hex_of_bundle() {
    let id = derive_identity(Scalar::from_bytes_mod_order([3u8; 32]));
    let r = record_for(1, &[0x0a, 0xff, 0x00], &id, &None);
    assert_eq!(r.serialized, "0aff00");
    assert_eq!(r.address, Some(id.address.clone()));
    assert_eq!(r.view, Some(hex::encode(id.view.to_bytes())));
}

#[test]
fn bundle_decodes_either_case() {
    assert_eq!(bundle_of(&record("0AfF")), Ok(vec![0x0a, 0xff]));
    assert_eq!(bundle_of(&record("")), Ok(vec![]));
}

#[test]
fn malformed_bundle_is_refused() {
    assert_eq!(bundle_of(&record("abc")), Err(KeyError::MalformedRecord));
    assert_eq!(bundle_of(&record("zz")), Err(KeyError::MalformedRecord));
}

#[test]
fn records_round_trip_their_bundles() {
    let id = derive_identity(Scalar::from_bytes_mod_order([5u8; 32]));
    let bundles = vec![vec![1u8, 2, 3], vec![250u8], vec![]];
    let records = records_for(&bundles, &id, &None);
    assert_eq!(records.len(), 3);
    for (k, r) in records.iter().enumerate() {
        assert_eq!(bundle_of(r), Ok(bundles[k].clone()));
    }
}

#[test]
fn only_leaders_carry_audit_fields() {
    let id = derive_identity(Scalar::from_bytes_mod_order([5u8; 32]));
    let bundles = vec![vec![1u8], vec![2u8], vec![3u8]];
    let records = records_for(&bundles, &id, &Some(vec![1, 3]));
    assert!(records[0].address.is_some() && records[0].view.is_some());
    assert!(records[1].address.is_none() && records[1].view.is_none());
    assert!(records[2].address.is_some());
    assert_eq!(records[1].serialized, "02");
}
