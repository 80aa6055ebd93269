//! Acquisition, caching and synchronisation engine for portable skill bundles.
pub mod cache;
pub mod descriptor;
pub mod fingerprint;
pub mod installer;
pub mod onboarding;
pub mod source;
pub mod store;
pub mod swap;
pub mod text;
