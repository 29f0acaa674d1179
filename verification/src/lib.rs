//! The core of a tabled directory listing.
//!
//! The caller reads the filesystem and hands over plain records; this
//! library decides everything that is shown:
//!
//! - [`entry`] turns what is known of a directory entry into a row,
//! - [`listing`] assembles the rows, directories first, and filters them
//!   by visibility,
//! - [`size`] writes byte counts in binary units or as raw counts,
//! - [`stamp`] writes modification times,
//! - [`color`] resolves the palette of the six colour roles,
//! - [`table`] and [`json`] render a listing,
//! - [`walk`] holds the decisions of the tree printer and of the
//!   recursive size sum,
//! - [`text`] has the decimal numerals the others share.

pub mod color;
pub mod entry;
pub mod json;
pub mod listing;
pub mod size;
pub mod stamp;
pub mod table;
pub mod text;
pub mod walk;
