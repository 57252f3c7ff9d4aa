//! Net APY of MetaMorpho vaults.
//!
//! The library decides everything but does no input or output of its own: a
//! request is accepted or refused in [`http`], the dialogue with the chain runs
//! through [`query`], and the arithmetic of the yields is that of [`apy`].
pub mod abi;
pub mod address;
pub mod amount;
pub mod apy;
pub mod apy_laws;
pub mod dto;
pub mod http;
pub mod keccak;
pub mod market;
pub mod numeral;
pub mod percent;
pub mod query;
pub mod query_laws;
pub mod service;
pub mod u256;
