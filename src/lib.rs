//! A NetworkManager-compatible view of the kernel's network state: the
//! device model, the rules that derive NetworkManager states from kernel
//! facts, and the batch logic that keeps the model in step with the kernel.

pub mod batch;
pub mod events;
pub mod mapping;
pub mod paths;
pub mod resolv;
pub mod state;
pub mod text;
pub mod uuid;
pub mod views;
