//! The protocol-buffer compiler: how it is invoked, where its files lie, and
//! how it is provided.

pub mod compiler;
pub mod layout;
pub mod provider;
