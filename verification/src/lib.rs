//! The logic of an LSP proxy between Helix, vue-language-server and
//! typescript-language-server.
pub mod bridge;
pub mod codec;
pub mod json;
pub mod message;
pub mod proxy;
pub mod run;
pub mod text;
pub mod transport;
