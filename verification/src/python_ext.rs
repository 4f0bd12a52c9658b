use vstd::prelude::*;

use crate::calldata::Address;
use crate::sdk::address_from_bytes;

verus! {

/// Why an argument handed in from Python was refused before the host was called.
#[derive(Clone, Copy, PartialEq, Eq, Structural, Debug)]
pub enum ArgumentError {
    /// An account address that is not twenty bytes long.
    AddressSize,
    /// A full (storage slot) address that is not thirty-two bytes long.
    FullAddressSize,
}

impl ArgumentError {
    /// The text that the `ValueError` raised in Python carries.
    pub fn message(self) -> (r: &'static str)
        ensures
            self is AddressSize ==> r@ == "invalid address size"@,
            self is FullAddressSize ==> r@ == "invalid full address size"@,
    {
        match self {
            ArgumentError::AddressSize => "invalid address size",
            ArgumentError::FullAddressSize => "invalid full address size",
        }
    }
}

/// The number of bytes of a full address, which names a storage slot.
pub const FULL_ADDRESS_SIZE: usize = 32;

/// A full address: the thirty-two bytes that name a storage slot.
#[derive(Clone, Copy, PartialEq, Eq, Hash, Debug)]
pub struct FullAddr(pub(crate) [u8; 32]);

impl View for FullAddr {
    type V = Seq<u8>;

    closed spec fn view(&self) -> Seq<u8> {
        self.0@
    }
}

impl FullAddr {
    /// The bytes of the full address.
    pub fn raw(self) -> (r: [u8; 32])
        ensures
            r@ == self@,
    {
        self.0
    }
}

/// The account address that Python handed in as bytes: accepted exactly when it is twenty bytes
/// long, and then made of those bytes.
pub fn get_addr(x: &[u8]) -> (r: Result<Address, ArgumentError>)
    ensures
        r is Ok <==> x@.len() == 20,
        r matches Ok(a) ==> a@ == x@,
        r matches Err(e) ==> e == ArgumentError::AddressSize,
{
    if x.len() != 20 {
        return Err(ArgumentError::AddressSize);
    }
    let a = address_from_bytes(x);
    assert(a@ =~= x@);
    Ok(a)
}

/// The full address that Python handed in as bytes: accepted exactly when it is thirty-two bytes
/// long, and then made of those bytes.
pub fn get_full_addr(x: &[u8]) -> (r: Result<FullAddr, ArgumentError>)
    ensures
        r is Ok <==> x@.len() == 32,
        r matches Ok(a) ==> a@ == x@,
        r matches Err(e) ==> e == ArgumentError::FullAddressSize,
{
    if x.len() != 32 {
        return Err(ArgumentError::FullAddressSize);
    }
    let mut raw: [u8; 32] = [0u8; 32];
    let mut i: usize = 0;
    while i < 32
        invariant
            0 <= i <= 32,
            x@.len() == 32,
            raw@.len() == 32,
            forall|j: int| 0 <= j < i ==> #[trigger] raw@[j] == x@[j],
        decreases 32 - i,
    {
        raw[i] = x[i];
        i = i + 1;
    }
    let a = FullAddr(raw);
    assert(a@ =~= x@);
    Ok(a)
}

} // verus!
