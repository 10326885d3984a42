//! What the host offers to plugins.
pub mod backend;
pub mod bind;
pub mod coord;
pub mod facade;
pub mod facade_laws;
pub mod js_answer;
pub mod js_laws;
pub mod js_value;
pub mod session_laws;
pub mod wire;
pub mod wire_laws;
