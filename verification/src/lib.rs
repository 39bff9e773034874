//! The untrusted side of a fog ledger server: handing out blocks, and looking up transaction
//! outputs by their public keys.
//!
//! The library decides and the caller acts. [`block_service::BlockService`] and
//! [`tx_out_service::UntrustedTxOutService`] turn a request into a run that asks one question at a
//! time, of the ledger or of the watcher, and work each reply into it until the response is there.
//! Both find the timestamp of a block by polling the watcher as [`watcher`] says. What comes of a
//! request as a whole is stated and proved in [`block_sessions`] and [`tx_out_sessions`].
pub mod block;
pub mod block_laws;
pub mod block_service;
pub mod block_sessions;
pub mod progress;
mod sequence;
pub mod span;
pub mod tx_out;
pub mod tx_out_laws;
pub mod tx_out_service;
pub mod tx_out_sessions;
pub mod watcher;
