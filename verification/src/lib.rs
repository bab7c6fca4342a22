use vstd::prelude::*;

pub mod text;
pub mod path;
pub mod time;
pub mod descriptor;
pub mod event;
pub mod outcome;
pub mod entity;
pub mod node;
pub mod describe;
pub mod hex;
pub mod seed;
pub mod curve;
pub mod oracle_info;
pub mod announcement;
pub mod attestation;
pub mod keychain;
pub mod db;
pub mod sources;
pub mod oracle;
pub mod config;
pub mod cli;
pub mod rest_api;

verus! {

} // verus!
