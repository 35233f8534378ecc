//! The hooks arena behind `use_state!`, `use_effect!` and `use_memo!`, and
//! the form helper.

pub mod runtime;
pub mod use_form;
