//! Provisioning of a versioned protocol-buffer compiler, discovery of `.proto`
//! sources and rendering of compiler invocations, with every decision stated as
//! a contract. File-system, network and process work is left to the caller: the
//! library says what to do next and is told what came of it.

pub mod config;
pub mod gen;
pub mod path;
pub mod protoc;
pub mod text;
pub mod walk;
