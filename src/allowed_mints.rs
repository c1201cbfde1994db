use vstd::prelude::*;
use crate::address::{bytes_equal, Address};

verus! {

/// The stable-value token mint accepted on the development network.
pub const USDC_DEVNET: [u8; 32] = [
    59, 68, 44, 179, 145, 33, 87, 241, 58, 147, 61, 1, 52, 40, 45, 3,
    43, 95, 254, 205, 1, 162, 219, 241, 183, 121, 6, 8, 223, 0, 46, 167,
];

/// The stable-value token mint accepted on the main network.
pub const USDC_MAINNET: [u8; 32] = [
    198, 250, 122, 243, 190, 219, 173, 58, 61, 101, 243, 106, 171, 201, 116, 49,
    177, 187, 228, 194, 210, 246, 224, 228, 124, 166, 2, 3, 69, 47, 93, 97,
];

/// The whitelist of mints that a vault may be created for.
pub open spec fn mint_allowed(mint: Seq<u8>) -> bool {
    mint == USDC_DEVNET@ || mint == USDC_MAINNET@
}

/// Whether `mint` is one of the whitelisted mints.
pub fn is_allowed(mint: &Address) -> (r: bool)
    ensures
        r == mint_allowed(mint@),
{
    let devnet = USDC_DEVNET;
    let mainnet = USDC_MAINNET;
    bytes_equal(&mint.bytes, &devnet) || bytes_equal(&mint.bytes, &mainnet)
}

} // verus!
