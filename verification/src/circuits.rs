//! The tier classification that the confidential executor applies to a
//! donation amount. The coordinator and the ledger never see the amount;
//! only the tier crosses the confidentiality boundary.

use vstd::prelude::*;

verus! {

/// Donation amount of at least this much earns tier 4.
pub const TIER_4_MIN: u64 = 1_000_000_000;
/// Donation amount of at least this much earns tier 3.
pub const TIER_3_MIN: u64 = 500_000_000;
/// Donation amount of at least this much earns tier 2.
pub const TIER_2_MIN: u64 = 250_000_000;
/// Donation amount of at least this much earns tier 1.
pub const TIER_1_MIN: u64 = 100_000_000;

/// Plaintext view of the donor's submission: the contribution amount in the
/// smallest currency unit.
pub struct DonationInput {
    pub amount_lamports: u64,
}

/// The threshold table: the tier owed to a given amount.
pub open spec fn spec_tier(amount_lamports: u64) -> u8 {
    if amount_lamports >= TIER_4_MIN {
        4u8
    } else if amount_lamports >= TIER_3_MIN {
        3u8
    } else if amount_lamports >= TIER_2_MIN {
        2u8
    } else if amount_lamports >= TIER_1_MIN {
        1u8
    } else {
        0u8
    }
}

/// Classify a donation amount into its disclosure tier.
///
/// In deployment this comparison runs inside the confidential executor on an
/// encrypted amount; the function itself is a pure map from amount to tier.
pub fn verify_donation(input: &DonationInput) -> (tier: u8)
    ensures
        tier == spec_tier(input.amount_lamports),
        tier <= 4,
{
    if input.amount_lamports >= TIER_4_MIN {
        4u8
    } else if input.amount_lamports >= TIER_3_MIN {
        3u8
    } else if input.amount_lamports >= TIER_2_MIN {
        2u8
    } else if input.amount_lamports >= TIER_1_MIN {
        1u8
    } else {
        0u8
    }
}

} // verus!
