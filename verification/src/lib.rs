//! Scaffolding core for Minecraft datapack projects: a placeholder
//! substitution table ([`Config`]) and a text template with an embedded
//! output-path directive ([`Template`]).

mod config;
mod template;
mod text;

/// Utility functions
pub mod utils;
/// String Validator
pub mod validator;

pub use config::{
    key_idx, keys_unique, lemma_apply_empty, lemma_insert_keeps_keys_unique, spec_apply,
    spec_insert, spec_replace, spec_splice, Config,
};
pub use template::{
    first_filled, first_nl, first_unblank, lemma_parse_missing_marker, lemma_parse_no_lines,
    spec_clean, spec_join_nl, spec_lines, spec_parse, strip_cr, Template, TemplateError,
    TemplateView,
};
pub use text::{is_space, spec_trim, trim_back, trim_front};
