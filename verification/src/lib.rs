//! Sorting photographs into a `YEAR/MM_MonthName/CAMERA_MODEL` folder
//! hierarchy from their EXIF metadata.
//!
//! The crate holds the decisions: which files count as images, which folder
//! an image belongs in, how a clashing file name is made unique, how EXIF
//! fields become the strings that name folders, and how the run's totals are
//! kept. Walking directories, reading and copying files, and drawing the
//! terminal are left to the program that uses it.
//!
//! Paths are held as text and joined by `Path::join`, by the platform's
//! rules.

pub mod calendar;
pub mod metadata;
pub mod models;
pub mod organizer;
pub mod panel;
pub mod paths;
pub mod scanner;
pub mod text;

