//! Verified core of the C-Salt build driver: manifest validation, build planning,
//! toolchain argument construction and CMake generation.
use vstd::prelude::*;

pub mod cli;
pub mod cmake;
pub mod config;
pub mod flags;
pub mod hash;
pub mod linker;
pub mod lock;
pub mod paths;
pub mod plan;
pub mod project;
pub mod text;
pub mod toolchain;
pub mod version;
pub mod workspace;

verus! {
} // verus!
