//! The balance that a token account's data records.

use vstd::prelude::*;

use crate::error::AirdropError;
use crate::le::{le_value, read_u64_le};

verus! {

/// A token balance, as account data holds it: eight bytes, least significant
/// first.
#[derive(Clone, Copy, Debug, PartialEq, Eq, Structural)]
pub struct MyToken {
    pub balance: u64,
}

impl MyToken {
    /// Reads a balance from `input`, which must be exactly its eight bytes.
    pub fn unpack(input: &[u8]) -> (r: Result<MyToken, AirdropError>)
        ensures
            match r {
                Ok(token) => input@.len() == 8 && token.balance == le_value(input@),
                Err(e) => input@.len() != 8 && e == AirdropError::MalformedPayload,
            },
    {
        if input.len() != 8 {
            return Err(AirdropError::MalformedPayload);
        }
        let balance: u64 = read_u64_le(input, 0);
        assert(input@.subrange(0, 8) =~= input@);
        Ok(MyToken { balance })
    }
}

} // verus!
