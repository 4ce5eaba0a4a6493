//! Staging of bundled assets: where each bundle goes on disk, which of its
//! files have to be written again, and how the process is pointed at the
//! result.
//!
//! The library never touches the disk or the environment. It decides; the
//! caller performs what was decided and reports back what happened.

/// The asset table: the files and sub-directories of one bundle.
pub mod assets;
/// Bundles that were baked into the binary, read into the asset table.
pub mod embedded;
/// What the launcher decides before the UI engine starts.
pub mod launch;
/// What holds of every staging that is carried out.
pub mod laws;
/// The staging directory, and the paths below it.
pub mod paths;
/// The steps that stage a bundle, in their order.
pub mod plan;
/// The platforms and what differs between them.
pub mod platform;
/// The library search path.
pub mod search_path;
/// The staging of one bundle, action by action.
pub mod staging;
/// The disk and the environment that the laws are stated over.
pub mod world;
