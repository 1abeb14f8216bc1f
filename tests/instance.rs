use casper_era::{instance_id, instance_label_bytes, EraId};
use casper_types::Digest;

#[test]
fn label_names_the_era_in_decimal() {
    assert_eq!(instance_label_bytes(EraId(0)), b"Highway era 0".to_vec());
    assert_eq!(instance_label_bytes(EraId(12)), b"Highway era 12".to_vec());
    assert_eq!(
        instance_label_bytes(EraId(u64::MAX)),
        b"Highway era 18446744073709551615".to_vec()
    );
}

#[test]
fn instance_id_is_the_digest_of_the_label() {
    assert_eq!(instance_id(EraId(7)), Digest::hash(b"Highway era 7").value());
    assert_ne!(instance_id(EraId(7)), instance_id(EraId(8)));
    assert_eq!(instance_id(EraId(3)), instance_id(EraId(3)));
}
