//! A minimal build orchestrator core: manifest modelling, toolchain argument
//! tables, a staged invocation builder, and the build plan that orders a
//! library artifact before the binary that links against it.
pub mod text;
pub mod toolchain;
pub mod config;
pub mod pipeline;
