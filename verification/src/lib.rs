//! Verified core of a file-format conversion engine: format identification,
//! magic-byte detection, conversion routing, the conversion queue and the
//! intermediate representations that sit between decoders and encoders.
use vstd::prelude::*;

pub mod text;
pub mod format;
pub mod assoc;
pub mod errors;
pub mod detector;
pub mod builtin_formats;
pub mod integrity;
pub mod sandbox;
pub mod router;
pub mod queue;
pub mod queue_laws;
pub mod order;
pub mod conversions;
pub mod catalog;
pub mod registry;
pub mod config;
pub mod progress;
pub mod temp_manager;
pub mod state;
pub mod format_names;
pub mod orchestrator;
pub mod ir;
pub mod desktop;
pub mod laws;
pub mod table_laws;

verus! {
} // verus!
