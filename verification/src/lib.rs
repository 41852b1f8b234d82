//! The client side of the LINE bridge.
//!
//! - [`config`]: the binding to a relay and the addresses that follow from it;
//! - [`storage`]: where the binding lies on disk, and how it is saved, loaded and deleted;
//! - [`filter`]: agent output made fit for LINE, with its laws in [`filter_laws`];
//! - [`ask`]: the tool that asks the user a question;
//! - [`text`] and [`url`]: strings as sequences of characters, and percent-encoding;
//! - [`outside`]: types of other crates.

pub mod ask;
pub mod config;
pub mod filter;
pub mod filter_laws;
pub mod outside;
pub mod storage;
pub mod text;
pub mod url;
