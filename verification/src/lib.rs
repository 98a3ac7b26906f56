//! Verified core of an ink-separation imaging pipeline: CMYK channel
//! extraction, per-plate effects, full-colour filters, gradient recolouring,
//! and the orchestration that sequences them over a cached separation.

pub mod cmyk;
pub mod colormap;
pub mod commands;
pub mod effects;
pub mod encode;
pub mod errors;
pub mod export;
pub mod filters;
pub mod processes;
pub mod processor;
pub mod raster;
pub mod rgb;
pub mod state;
pub mod treatment;
