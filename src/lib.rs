//! Checks that a package tree keeps its layout conventions, comparing a base revision with a
//! candidate revision so that existing violations may stay while new ones are refused.
pub mod location;
pub mod problem;
pub mod validation;
pub mod ratchet;
pub mod status;
pub mod process;
pub mod structure;
pub mod eval;
pub mod references;
