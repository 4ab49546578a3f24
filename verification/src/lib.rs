//! A DNS forwarding proxy's core: it routes the addresses of a reply to
//! named kernel address sets.
//!
//! [`config`] builds the routing table from set names and patterns,
//! [`routing`] looks a domain name up in it with the help of [`pattern`],
//! [`pipeline`] turns a reply into set updates with the help of [`dns`],
//! and [`ipset`] encodes one set update as a netlink message. [`order`]
//! is the order in which set names are kept and handed out.

pub mod config;
pub mod dns;
pub mod errors;
pub mod ipset;
pub mod order;
pub mod pattern;
pub mod pipeline;
pub mod routing;
