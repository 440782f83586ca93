//! Verified building blocks of the SurrealDB tooling: the language-test
//! worker and datastore provisioner, the log-filter and telemetry settings of
//! the server, the `#[surrealism]` attribute rules, the Surrealism package
//! configuration and export manifest, and the WASI network allow-list.

pub mod text;
pub mod rng;
pub mod backend;
pub mod worker;
pub mod attrs;
pub mod signature;
pub mod net;
pub mod provision;
pub mod logging;
pub mod gc;
pub mod hexcode;
pub mod exports;
pub mod config;
pub mod errors;
