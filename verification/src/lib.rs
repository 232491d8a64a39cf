//! Metadata and environment substrate for a Python package manager:
//! the supported-interpreter catalog, release metadata from the package
//! registry, platform-aware virtual-environment path resolution, and a
//! bounded readiness wait for externally created directories.

pub mod error;
pub mod paths;
pub mod registry;
pub mod version;
pub mod waiting;
