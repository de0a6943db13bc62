//! Painting a grayscale image as database load.
//!
//! A run walks the image column by column. Each column lasts one fixed
//! interval of wall-clock time, cut into equal passes; in every pass each
//! pixel of the column is turned into batched updates against one of a set of
//! small counter tables, and the rest of the pass is slept away. This library
//! holds everything such a run decides: how a pixel becomes load, which
//! statements set the tables up and drive them, in which order the image is
//! walked, and how long to sleep. Performing the statements, reading the clock
//! and sleeping are left to the caller.

pub mod luma;
pub mod mapping;
pub mod pacing;
pub mod statement;
pub mod store;
pub mod driver;
pub mod provisioner;
pub mod walk;
