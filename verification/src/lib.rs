//! A minimal, lightweight update checker for packages published on a
//! crates-style registry.
//!
//! The library validates a package name, extracts the newest published
//! version out of the registry's JSON response by plain text scanning,
//! compares semantic versions under a pre-release policy, and decides when a
//! cached answer is still fresh. It performs no I/O itself: a caller runs the
//! network fetch and the cache file reads and writes, and feeds the results
//! through the step functions of [`UpdateChecker`].

pub mod cache;
pub mod chars;
pub mod checker;
pub mod errors;
pub mod extract;
pub mod name;
pub mod scan;
pub mod version;

pub use checker::CheckStart;
pub use checker::UpdateChecker;
pub use errors::Error;
pub use errors::UpdateInfo;
pub use extract::extract_newest_version;
pub use name::validate_crate_name;
