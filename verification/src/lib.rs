//! Per-base enzymatic cut-site coverage over fixed-width genomic windows.
//!
//! Regions become windows of width twice the flank, centred on the region's
//! midpoint. Every alignment is reduced to one cut-site coordinate chosen by
//! its own strand, and each window counts the cut sites that fall on each of
//! its offsets. Windows are processed in contiguous chunks.

pub mod window;
pub mod shift;
pub mod coverage;
pub mod chunk;
pub mod engine;
pub mod emit;
