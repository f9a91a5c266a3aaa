//! A cross-exchange arbitrage detection engine: order-book snapshots
//! per venue and pair, canonicalization of wrapped-asset spellings, a
//! per-venue fee model, a conservative sizing policy, and two scan
//! modes over the working set, all on fixed-point micro-unit
//! arithmetic with machine-checked contracts.

use vstd::prelude::*;

pub mod book;
pub mod evaluate;
pub mod fees;
pub mod ids;
pub mod laws;
pub mod payload;
pub mod scan;
pub mod store;
pub mod symbols;

verus! {

/// Scale factor for fixed-point amounts: prices, sizes and money
/// amounts are stored as integer numbers of micro-units.
pub const SCALE: u64 = 1_000_000;

/// Minimum net profit (in micro quote units) an opportunity must clear.
pub const MIN_ABSOLUTE_PROFIT: i64 = 1_000_000;

/// Minimum return on investment, in micro percentage points.
pub const MIN_ROI_MICRO_PCT: i128 = 100_000;

/// Largest representable price: one million quote units per unit.
/// Quotes above the bound are rejected at the ingestion edge so that
/// every product computed by the analysis fits its integer type.
pub const MAX_PRICE_MICRO: u64 = 1_000_000_000_000;

/// Largest representable level size: one million base units.
pub const MAX_SIZE_MICRO: u64 = 1_000_000_000_000;

/// Denominator for per-million fee rates.
pub const FEE_RATE_DEN: u64 = 1_000_000;

/// Largest admissible fee rate: one hundred per cent.
pub const MAX_FEE_PPM: u64 = 1_000_000;

/// Largest admissible flat gas cost, in micro quote units.
pub const MAX_GAS_MICRO: u64 = 1_000_000_000_000;

/// Largest admissible per-unit withdrawal fee, in micro quote units.
pub const MAX_WITHDRAWAL_MICRO: u64 = 1_000_000_000_000;

} // verus!
