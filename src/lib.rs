//! Trade lifecycle of a hybrid perpetual-futures exchange, with its behaviour
//! proved: price-time matching of limit orders, the signed settlement message
//! and the signature-verifier payload that carries it, and the margin
//! bookkeeping that settles each trade on the buyer's and seller's accounts.
//! Prices, quantities and collateral are fixed-point integers in millionths.

pub mod attestation;
pub mod book;
pub mod ingress;
pub mod margin;
pub mod settlement;
pub mod signer;
