//! The verified core of a loadable module format.
//!
//! A module is an independently compiled space of endpoints. A host mounts it at some prefixes,
//! routes the names under them to it, and serves its callbacks while it runs. What is decided
//! on the way is decided here, over plain values:
//!
//! - [`mount`] and [`lazy`]: what a mount routes, lists and tells the kernel of each name;
//! - [`floor`]: what a host demands of every caller, whatever the module says of itself;
//! - [`rewrite`]: how a module declares its naming, and what a host makes of it;
//! - [`cards`]: how the cards of a module are found, and matched to a name;
//! - [`host_side`] and [`module_side`]: a session at either end, step by step;
//! - [`session`] and [`wire`]: what either end makes of a message, and what a message means;
//! - [`provenance`]: what the result of a session depends on;
//! - [`frame`]: messages on a socket.
//!
//! [`kernel`], [`named`] and [`card`] are the values they speak of, [`text`] what they need of
//! strings. [`outside`] is what is taken on trust: the kernel crate's IRIs, templates, actions
//! and alias tables.

pub mod card;
pub mod cards;
pub mod floor;
pub mod frame;
pub mod host_side;
pub mod kernel;
pub mod lazy;
pub mod module_side;
pub mod mount;
pub mod named;
pub mod outside;
pub mod provenance;
pub mod rewrite;
pub mod session;
pub mod text;
pub mod wire;
