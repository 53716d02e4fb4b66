//! The randomness core of a command-line password and key generator: it
//! harvests entropy from independent sources, combines the draws into seed
//! material for an HMAC-based deterministic random bit generator, issues a
//! strictly monotonic per-instantiation personalization string, and samples
//! alphabet indices from the generator's output without modulo bias.
//! Randomness failures are unrecoverable by design and surface as
//! distinguished error values; the embedding program turns them into
//! process termination at its outermost boundary.

pub mod bits;
pub mod entropy;
pub mod errors;
pub mod hmac_drbg;
pub mod personalization;
pub mod random;
pub mod sampler;
mod wipe;
