//! Request resolution and content delivery for a virtual-hosting static
//! server and reverse proxy: host normalisation, rule tables, routing
//! decisions, byte-range plans, chunk schedules and proxy header rewriting.

pub mod config;
pub mod front;
pub mod mime;
pub mod number;
pub mod pattern;
pub mod proxy;
pub mod range;
pub mod resolution;
pub mod respond;
pub mod rules;
pub mod sorted;
pub mod stream;
pub mod text;
