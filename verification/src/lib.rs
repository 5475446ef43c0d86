//! Shaping, metric and wrapping caches for text rendering.
//!
//! `TextSystem` wraps a platform text system with the engine's font-id, metric,
//! raster-bounds and line-wrapper pools, and carries reports of missing glyphs
//! from layout to the application. It has no knowledge of windows.
//!
//! Several calls made here reach state that other threads share: the platform
//! text system, the generation counters and the report queue. What such a call
//! returns cannot be predicted, so contracts speak of it through
//! `call_ensures(function, arguments, result)`: that the call with these arguments
//! can give this result. Nothing is assumed of these calls, so that only making the
//! call establishes it. Which calls were made, how often and in which order, is
//! written down in ghost records that only the calls themselves add to: those of
//! `surroundings` for the platform and the counters, of `report_queue` for the queue,
//! and of `wrapper_maker` for line wrappers. That nothing is done that is not written
//! down is a matter of `asked`, which holds what is shared and hands it only to
//! functions that it records.
//!
//! A reporter is shared itself, and nobody owns a record of it. There it is the types
//! that leave nothing else to do: `report` and `reset` hold of reports of any type, so
//! that nothing can be queued but what is made of the glyphs handed in.
pub mod answers;
pub mod asked;
pub mod caches;
pub mod fonts;
pub mod generations;
pub mod inline_lists;
pub mod missing_glyph_laws;
pub mod missing_glyphs;
pub mod platform;
pub mod questions;
pub mod queue;
pub mod quiet_queue_laws;
pub mod report_queue;
pub mod sequences;
pub mod surroundings;
pub mod text_system;
pub mod types;
pub mod wrapper_maker;
