//! Chain constants shared by the agent.
use vstd::prelude::*;

verus! {

/// The Ethereum mainnet block at which EIP-4844 (Dencun) activated; the
/// archiving cursor never starts below it.
pub const FIRST_ETH_L1_EIP4844_BLOCK: u64 = 19426587;

} // verus!
