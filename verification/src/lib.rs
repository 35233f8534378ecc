//! Verified core of gpux: the hooks arena, form state, the text-input
//! editing model, the global text-selection model, asset-path routing and
//! the Tailwind class compiler used by the `view!` macro.

pub mod text;
pub mod numbers;
pub mod tailwind;
pub mod markup;
pub mod components;
pub mod hooks;
pub mod system;
pub mod router;
