//! The success rule for token transfers made by raw calls.
use crate::error::Error;
use crate::pool::AMM;
use vstd::prelude::*;

verus! {

/// `data` is a 32-byte big-endian boolean `true`.
pub open spec fn is_abi_true(data: Seq<u8>) -> bool {
    data.len() == 32 && data[31] == 1 && forall|i: int| 0 <= i < 31 ==> data[i] == 0
}

/// A raw token call succeeded: it did not revert, and it returned nothing or
/// exactly a 32-byte `true`.
pub open spec fn transfer_succeeded(returned: Result<Vec<u8>, Vec<u8>>) -> bool {
    match returned {
        Ok(data) => data@.len() == 0 || is_abi_true(data@),
        Err(_) => false,
    }
}

impl AMM {
    /// Judges the outcome of a raw `transfer` call on a token: its return data,
    /// or its revert data.
    pub fn safe_transfer(returned: &Result<Vec<u8>, Vec<u8>>) -> (r: Result<(), Error>)
        ensures
            r is Ok == transfer_succeeded(*returned),
            r is Err ==> r == Err::<(), Error>(Error::TransferFailed),
    {
        let data = match returned {
            Ok(d) => d,
            Err(_) => return Err(Error::TransferFailed),
        };
        if data.len() == 0 {
            return Ok(());
        }
        if data.len() != 32 || data[31] != 1 {
            return Err(Error::TransferFailed);
        }
        let mut i: usize = 0;
        while i < 31
            invariant
                data@.len() == 32,
                data@[31] == 1,
                *returned is Ok && returned->Ok_0@ == data@,
                i <= 31,
                forall|k: int| 0 <= k < i ==> data@[k] == 0,
            decreases 31 - i,
        {
            if data[i] != 0 {
                assert(data@[i as int] != 0);
                return Err(Error::TransferFailed);
            }
            i = i + 1;
        }
        Ok(())
    }
}

} // verus!
