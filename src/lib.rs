//! Repository summary for terminal display: the reducers that turn raw
//! repository facts into display strings, and the two-column renderer that
//! places them beside a language logo.

pub mod text;
pub mod color;
pub mod language;
pub mod error;
pub mod stats;
pub mod history;
pub mod authors;
pub mod probes;
pub mod repo;
pub mod license;
pub mod ignore;
pub mod layout;
pub mod fields;
pub mod info;
pub mod plan;
