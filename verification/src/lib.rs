//! Session protocol of a single-kiosk ordering system: the menu
//! configuration, order pricing, the kiosk's ordering stages and the
//! server's per-connection message handling.
//!
//! The library decides and computes; it performs no input or output. A host
//! program receives and sends messages, writes the ledger and draws the
//! pages, and asks the library what to do at each step:
//!
//! - [`menu`] holds the configuration and checks its invariants;
//! - [`pricing`] computes what an order costs, in whole hundredths;
//! - [`kiosk`] is the kiosk's state machine over its three pages;
//! - [`handshake`] starts a kiosk from the server's first answer;
//! - [`session`] answers each message that reaches the server;
//! - [`fault`] says which faults end a session or a process;
//! - [`assets`] and [`display`] prepare what the kiosk's pages show.

pub mod assets;
pub mod display;
pub mod fault;
pub mod handshake;
pub mod kiosk;
pub mod menu;
pub mod pricing;
pub mod session;

pub use crate::menu::{Base, BaseId, Config, Menu, Order, SpiceLevel, Toppings, ToppingsId};
