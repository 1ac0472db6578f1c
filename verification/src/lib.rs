//! A ledger of non-fungible token ownership and custody, with a rental
//! market on top of it: two signed half-orders are matched into a rental,
//! custody moves to the borrower, and block heights later the token comes
//! back, at maturity or on a missed installment.
//!
//! - [`nft_currency`]: the ledger, its state as mathematics and what every
//!   operation keeps of it.
//! - [`renting`]: payloads and orders, the matching rule, the schedule, and
//!   the market's operations.
//! - [`trading`]: the sale market, which moves ownership instead of custody.
//! - [`storage`]: the keyed tables that hold the state.
//! - [`bytes`]: byte strings and account keys.
//!
//! The library moves no money and keeps no clock: an operation that asks
//! for a payment hands the request out, and takes the time and the block
//! height as arguments.

pub mod bytes;
pub mod storage;
pub mod nft_currency;
pub mod renting;
pub mod trading;
