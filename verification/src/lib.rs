//! Generation of the client-side Rust bindings of a Wayland protocol.
pub mod accept;
pub mod client_gen;
pub mod client_laws;
pub mod client_spec;
pub mod doc;
pub mod names;
pub mod protocol;
pub mod text;
pub mod util;
