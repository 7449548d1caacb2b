use counter_program::address::Address;
use counter_program::error::CounterError;

#[test]
fn addresses_with_the_same_bytes_are_the_same() {
    let a = Address::new([7; 32]);
    let b = Address::new([7; 32]);
    assert!(a.same_as(&b));
    assert_eq!(a.to_bytes(), [7; 32]);
}

#[test]
fn addresses_differ_in_any_byte() {
    let a = Address::new([7; 32]);
    for i in 0..32 {
        let mut bytes = [7u8; 32];
        bytes[i] = 8;
        assert!(!a.same_as(&Address::new(bytes)));
        assert!(!Address::new(bytes).same_as(&a));
    }
}

#[test]
fn each_error_has_its_message() {
    assert_eq!(CounterError::MalformedInstruction.message(), "malformed instruction");
    assert_eq!(CounterError::UnknownInstruction.message(), "unknown instruction");
    assert_eq!(CounterError::NotEnoughAccountKeys.message(), "not enough account keys");
    assert_eq!(CounterError::AccountCreationFailed.message(), "account creation failed");
    assert_eq!(CounterError::CorruptState.message(), "corrupt counter state");
    assert_eq!(CounterError::Unauthorized.message(), "unauthorized");
}
