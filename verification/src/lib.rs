//! A token factory: any account can create a fungible token with a fixed
//! supply, move it with ordinary or allowance-based transfers, and move it
//! for free a limited number of times per period, the fee being paid out of
//! a per-token fund of the native currency.
//!
//! The runtime framework the token factory was first written for is not
//! used here: its storage maps are held as `BTreeMap`s, the derivation of a
//! module's sub-account is written out with `parity-scale-codec` calls, the
//! native currency is any implementation of this crate's `Currency` trait
//! (with `SimpleBalances` as an in-memory one), and the runtime's
//! configurable types are fixed: token ids are `u32`, token and native
//! balances `u64`, accounts `u128`, block numbers `u64`.
pub mod account;
pub mod currency;
pub mod fees;
pub mod laws;
pub mod module;
pub mod origin;
pub mod state;
pub mod sum;
