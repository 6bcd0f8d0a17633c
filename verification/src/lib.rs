//! Discovery of package repositories tagged with two topic labels, and the
//! normalised listing of what was found.

pub mod driver;
pub mod extract;
pub mod flags;
pub mod model;
pub mod query;
pub mod report;
pub mod sink;
pub mod text;
pub mod walk;
