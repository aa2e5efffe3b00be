//! Cross-compiles a dynamic-library project for several targets: picks the
//! toolchain per target, reads the build tool's JSON progress events, picks
//! the produced library and names the published copy.

pub mod text;
pub mod catalog;
pub mod toolchain;
pub mod json;
pub mod events;
pub mod artifact;
pub mod publish;
pub mod run;
pub mod project;
