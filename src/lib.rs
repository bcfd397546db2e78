//! Read-only lookups over a snapshot of a package registry's metadata: the versions of a
//! package, the dependencies of a version, a package's keywords, which candidates depend
//! on a target package and with which range, and complete package records.

pub mod text;
pub mod model;
pub mod query;
pub mod reverse;
pub mod assemble;
pub mod laws;
pub mod plugins;
pub mod config;
