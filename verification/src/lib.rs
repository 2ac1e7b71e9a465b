//! Configuration, state, inventory and status rules of a resumable ROM-processing
//! pipeline, with their contracts.
use vstd::prelude::*;

pub mod adapters;
pub mod cci;
pub mod chd_output;
pub mod cia_conversion;
pub mod cli;
pub mod config;
pub mod conversion;
pub mod counts;
pub mod digest;
pub mod disc;
pub mod domain;
pub mod error;
pub mod library;
pub mod manifest;
pub mod migration;
pub mod numbers;
pub mod order;
pub mod page;
pub mod preflight;
pub mod psp;
pub mod psp_inventory;
pub mod service;
pub mod sfo;
pub mod state;
pub mod status;
pub mod text;
pub mod vita;
pub mod vita_deploy;
pub mod vita_manifest;
pub mod web;
pub mod wiiu;

verus! {
}
