//! Resolution and validation of per-service deployment manifests.
#![allow(non_snake_case)]

pub mod text;
pub mod pattern;
pub mod error;
pub mod env;
pub mod config;
pub mod structs;
pub mod manifest;
pub mod laws;
pub mod generate;
