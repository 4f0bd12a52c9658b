use genvm::python_ext::{get_addr, get_full_addr, ArgumentError};

#[test]
fn address_of_twenty_bytes_is_taken_as_is() {
    let bytes: Vec<u8> = (1..=20).collect();
    let a = get_addr(&bytes).unwrap();
    assert_eq!(a.raw().to_vec(), bytes);
}

#[test]
fn address_of_other_length_is_refused() {
    assert_eq!(get_addr(&[0u8; 19]).err(), Some(ArgumentError::AddressSize));
    assert_eq!(get_addr(&[0u8; 32]).err(), Some(ArgumentError::AddressSize));
    assert_eq!(ArgumentError::AddressSize.message(), "invalid address size");
}

#[test]
fn full_address_needs_thirty_two_bytes() {
    let bytes: Vec<u8> = (100..132).collect();
    let a = get_full_addr(&bytes).unwrap();
    assert_eq!(a.raw().to_vec(), bytes);
    assert_eq!(get_full_addr(&bytes[..20]).err(), Some(ArgumentError::FullAddressSize));
    assert_eq!(ArgumentError::FullAddressSize.message(), "invalid full address size");
}
