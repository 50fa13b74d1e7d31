//! Project-scoped package environments over a shared package manager: the manifests,
//! the lock, and the rules that reconcile them, each stated and proved.
pub mod environment;
pub mod error;
pub mod homebrew;
pub mod manifest;
pub mod name_map;
pub mod profile;
pub mod text;
