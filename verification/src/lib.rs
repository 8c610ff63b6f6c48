//! Archives photo and video files copied from a camera volume into a
//! date-organized tree, and inspects a photo-management database for
//! already-indexed duplicates.
//!
//! The library holds every decision of the pipeline: extension
//! filtering, derivation of directory and file numbers, timestamp
//! transformation, canonical path composition, the idempotent and
//! conflict-safe copy step, and the duplicate-counting rules. The thin
//! binary around it only walks directories, runs the external metadata
//! and comparison tools, and queries the database, handing this library
//! plain values and carrying its verdicts out.

pub mod compose;
pub mod copy_plan;
pub mod duplicates;
pub mod error;
pub mod number;
pub mod pipeline;
pub mod resolve;
pub mod scan;
pub mod text;
