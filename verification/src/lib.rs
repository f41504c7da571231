//! Verified core of the axum-harness repository tooling and reference services.
pub mod text;
pub mod doc;
pub mod numtext;
pub mod pattern;
pub mod report;
pub mod tenant;
pub mod events;
pub mod user;
pub mod sorting;
pub mod git;
pub mod secrets;
pub mod tenant_store;
pub mod user_store;
pub mod gate;
pub mod routing;
pub mod contracts;
pub mod imports;
pub mod state;
pub mod delivery;
pub mod resilience;
pub mod existence;
pub mod template;
pub mod tooling;
pub mod toolchain;
pub mod platform;
pub mod counter_http;
