//! Turns X.509 certificates into deterministic source-code table entries:
//! a SHA-256 fingerprint laid out as a fixed hex array, the raw subject name
//! and serial number as base64 text, and the subject distinguished name
//! rendered, most-specific part first, as a comment line.

pub mod dn;
pub mod encode;
pub mod ext;
pub mod model;
pub mod record;
