//! Signing core of a hardware-wallet application for the Sui network:
//! an incremental decoder for transaction bytes, the validator that
//! recognises a single-recipient transfer, and the state machines that
//! gate approval and signing.
//!
//! The decoding rules are functions of the received bytes and a position
//! ([`decode`], [`schema`], [`validator`], [`transaction`]); each has a
//! mathematical definition and an executable reader that is proved to
//! follow it. [`chunking`] proves that no outcome depends on where the
//! bytes were cut into chunks, [`recognition`] what the validator accepts
//! and refuses. [`session`] keeps the one parse that may be suspended
//! between commands, [`signing`] and [`pubkey`] are the state machines of
//! the two kinds of request, and [`dispatcher`] holds the decisions of the
//! command loop.

pub mod address;
pub mod bounded;
pub mod chunking;
pub mod ctx;
pub mod decode;
pub mod dispatcher;
pub mod encode;
pub mod hasher;
pub mod interface;
pub mod outcome;
pub mod path;
pub mod pubkey;
pub mod recognition;
pub mod resumable;
pub mod run_mode;
pub mod schema;
pub mod session;
pub mod settings;
pub mod signing;
pub mod stream;
pub mod swap;
pub mod transaction;
pub mod utils;
pub mod validator;
