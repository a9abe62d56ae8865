//! Keeps one DNS A record pointed at this machine's public IPv4 address.
//!
//! The library takes every decision of one reconciliation and performs none
//! of its requests: [`reconcile`] is told what happened outside and answers
//! with the lines to print and the next request to make, and [`run`] states
//! what holds of every sequence of such answers. Around them stand the
//! command line ([`args`]), addresses and their text ([`ipv4`]), the
//! provider's records and the choice among them ([`dns`]), the paths and the
//! body of the requests ([`wire`]), the lines for the operator ([`report`])
//! and the failures ([`failure`]).
pub mod args;
pub mod dns;
pub mod failure;
pub mod ipv4;
pub mod reconcile;
pub mod report;
pub mod run;
pub mod text;
pub mod wire;
