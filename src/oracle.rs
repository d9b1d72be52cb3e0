//! The table of price oracles by name.
use crate::address::Address;
use crate::error::Error;
use vstd::prelude::*;
use vstd::string::StringSliceAdditionalSpecFns;

verus! {

pub const ARB_ORACLE: &'static str = "0x91Fa05bCab98aD3DdEaE33DF7213EE8642e3c66c";

pub const BTC_ORACLE: &'static str = "0x898D1aB819a24880F636416df7D1493C94143262";

pub const ETH_ORACLE: &'static str = "0x898D1aB819a24880F636416df7D1493C94143262";

pub const GYD_ORACLE: &'static str = "0x88Ee016dadDCa8061bf6D566585dF6c8aBfED7bb";

/// The address that a checksummed hex string stands for, if it is one.
pub uninterp spec fn checksummed_address(s: Seq<char>) -> Option<Address>;

/// Relies on `Address::parse_checksummed` (without a chain id): the address
/// that the string spells, when its hex and its mixed-case checksum are valid.
#[verifier::external_body]
fn parse_checksummed(s: &str) -> (r: Option<Address>)
    ensures
        r == checksummed_address(s@),
{
    match alloy_primitives::Address::parse_checksummed(s, None) {
        Ok(a) => {
            let b = a.into_array();
            let mut hi = [0u8; 16];
            hi.copy_from_slice(&b[..16]);
            let lo = [b[16], b[17], b[18], b[19]];
            Some(Address { hi: u128::from_be_bytes(hi), lo: u32::from_be_bytes(lo) })
        },
        Err(_) => None,
    }
}

/// The three bytes of an oracle's name.
pub open spec fn name_is(name: Seq<u8>, a: char, b: char, c: char) -> bool {
    name == seq![a as u8, b as u8, c as u8]
}

/// The address text of the oracle called `name`, if there is one.
pub open spec fn oracle_text(name: Seq<u8>) -> Option<Seq<char>> {
    if name_is(name, 'A', 'R', 'B') {
        Some(ARB_ORACLE@)
    } else if name_is(name, 'B', 'T', 'C') {
        Some(BTC_ORACLE@)
    } else if name_is(name, 'E', 'T', 'H') {
        Some(ETH_ORACLE@)
    } else if name_is(name, 'G', 'Y', 'D') {
        Some(GYD_ORACLE@)
    } else {
        None
    }
}

fn is_name(name: &[u8], a: u8, b: u8, c: u8) -> (r: bool)
    ensures
        r == (name@ == seq![a, b, c]),
{
    if name.len() != 3 {
        return false;
    }
    let r = name[0] == a && name[1] == b && name[2] == c;
    assert(r ==> name@ =~= seq![a, b, c]);
    r
}

/// The address of the price oracle called `oracle_name`.
pub fn get_oracle(oracle_name: &str) -> (r: Result<Address, Error>)
    ensures
        match oracle_text(oracle_name.spec_bytes()) {
            None => r == Err::<Address, Error>(Error::UnknownOracle),
            Some(text) => match checksummed_address(text) {
                Some(a) => r == Ok::<Address, Error>(a),
                None => r == Err::<Address, Error>(Error::InvalidAddress),
            },
        },
{
    let name = oracle_name.as_bytes();
    let text = if is_name(name, 'A' as u8, 'R' as u8, 'B' as u8) {
        ARB_ORACLE
    } else if is_name(name, 'B' as u8, 'T' as u8, 'C' as u8) {
        BTC_ORACLE
    } else if is_name(name, 'E' as u8, 'T' as u8, 'H' as u8) {
        ETH_ORACLE
    } else if is_name(name, 'G' as u8, 'Y' as u8, 'D' as u8) {
        GYD_ORACLE
    } else {
        return Err(Error::UnknownOracle);
    };
    match parse_checksummed(text) {
        Some(a) => Ok(a),
        None => Err(Error::InvalidAddress),
    }
}

} // verus!
