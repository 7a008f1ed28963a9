use vstd::prelude::*;

verus! {

/// Native balance reserved in the vault when the pool is opened, so that the
/// vault account stays alive.
pub const RENT_MINIMUM: u64 = 1_000_000;

/// Length of a year in seconds (365 days): elapsed time is counted in whole
/// seconds, and `interest_rate` is a yearly rate.
pub const SECONDS_PER_YEAR: u64 = 31_536_000;

/// `interest_rate` is expressed in basis points: `RATE_DENOMINATOR` means 100%
/// a year.
pub const RATE_DENOMINATOR: u64 = 10_000;

} // verus!
