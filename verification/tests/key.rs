use railway_santinvoice::keys::idempotency_key;
use railway_santinvoice::keys::new_idempotency_key;

#[test]
fn keys_join_prefix_and_id() {
    assert_eq!(idempotency_key("test", "1234"), "test-1234");
    assert_eq!(idempotency_key("", ""), "-");
}

#[test]
fn new_keys_end_with_a_random_uuid() {
    let key = new_idempotency_key("railway-santinvoice");
    let id = key.strip_prefix("railway-santinvoice-").unwrap();
    assert_eq!(id.len(), 36);
    for (i, c) in id.chars().enumerate() {
        match i {
            8 | 13 | 18 | 23 => assert_eq!(c, '-'),
            14 => assert_eq!(c, '4'),
            19 => assert!(matches!(c, '8' | '9' | 'a' | 'b')),
            _ => assert!(matches!(c, '0'..='9' | 'a'..='f')),
        }
    }
    assert_ne!(new_idempotency_key("x"), new_idempotency_key("x"));
}
