//! A layered terminal UI: an ordered stack of components that paint onto a shared frame and
//! are offered input events from the topmost layer downwards.
//!
//! Every function states what it does over the mathematical view of the data it works on,
//! and Verus proves the statements.
//!
//! - [`compositor`]: the stack of layers, what layers have to offer, and how events and
//!   painting travel through the stack.
//! - [`menu`], [`text`], [`info`]: three components; [`layer`] is any one of them.
//! - [`surface`], [`registry`]: what components paint on.
//! - [`graphics`], [`input`]: rectangles and keys.
//! - [`path`]: paths as options of a menu.
pub mod compositor;
pub mod graphics;
pub mod info;
pub mod input;
pub mod layer;
pub mod menu;
pub mod path;
pub mod registry;
pub mod surface;
pub mod text;
