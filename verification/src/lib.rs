//! Audits a multi-crate source tree for "hidden" conditional-compilation
//! features: feature names referenced in `#[cfg(feature = "...")]` guards
//! that the owning package manifest never declares.
//!
//! The library is the verified core. It extracts feature names from source
//! lines, resolves each source file to its owning manifest by walking the
//! directory hierarchy upward, aggregates occurrences into per-manifest sets
//! keyed by feature name, loads each manifest's declared-feature table, and
//! computes each hidden set as the difference `used - exposed`. Directory
//! walking and file reading are the caller's job: the engine consumes a
//! plain snapshot of the tree ([`FsTree`]) and never touches the disk, save
//! that manifest texts are parsed through the `toml` crate.

pub mod feature;
pub mod laws;
pub mod package;
pub mod paths;
pub mod text;

pub use feature::Feature;
pub use package::CrateInfo;
pub use package::FsTree;
pub use package::ManifestFile;
pub use package::Package;
pub use package::SourceFile;
