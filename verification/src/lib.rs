//! Resolves the latest release of an add-on, selects the asset to download and
//! plans how its archive is unpacked into a destination directory.
//!
//! The library does no input or output. It reads values that were fetched
//! for it and says what is to be fetched or written next:
//!
//! - [`resolver`] reads the description of a release into [`release`] metadata,
//! - [`matcher`] selects the asset whose download address satisfies a pattern,
//! - [`archive`] reads a zip archive and plans its unpacking, with [`path`]
//!   keeping every entry inside the destination,
//! - [`model`] says what a plan does to a destination,
//! - [`pipeline`] orders the stages of one run,
//! - [`addon`], [`database`] and [`settings`] hold what is known of add-ons
//!   and games.

pub mod addon;
pub mod archive;
pub mod database;
pub mod error;
pub mod matcher;
pub mod model;
pub mod path;
pub mod pipeline;
pub mod release;
pub mod resolver;
pub mod settings;
pub mod util;
