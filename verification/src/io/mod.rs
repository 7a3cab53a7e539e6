//! Document writers and data readers.
pub mod csv;
pub mod json;
pub mod latex;
pub mod network;
pub mod provenance;
