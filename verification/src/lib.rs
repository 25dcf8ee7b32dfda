//! Package state and synchronization engine for an AUR-style package
//! front end: the persistent record of installed package versions, the
//! remote-version comparison logic, the outdated-packages snapshot codec,
//! and the exit-code-to-domain-error translation layer.
pub mod binary;
pub mod errors;
pub mod prompt;
pub mod refresh;
pub mod report;
pub mod runner;
pub mod snapshot;
pub mod store;
pub mod text;
pub mod version;
