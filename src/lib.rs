//! Turns compiled arithmetic circuits into backend-ready artifacts: a backend-specific
//! optimization pass with exact debug re-indexing, a shared reference string that grows
//! with every circuit of a build, preprocessing, and the build of a whole workspace of
//! binary, library and contract packages.
use vstd::prelude::*;

pub mod circuit;
pub mod debug;
pub mod crs;
pub mod preprocess;
pub mod orchestrator;
pub mod scaffold;
