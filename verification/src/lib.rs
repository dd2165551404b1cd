//! Verified core of the WarpFusion scenario tooling: the `.wfg` scenario
//! language (parser and static checks), the admin CLI decisions, and the
//! alert comparison used by `verify`.

pub mod text;
pub mod json_text;
pub mod scope;
pub mod wfg_ast;
pub mod wfg_model;
pub mod wfg_parse_error;
pub mod wfg_grammar;
pub mod wfg_lexer;
pub mod error;
pub mod wfg_parser;
pub mod wfg_file;
pub mod validate;
pub mod verify;
pub mod wfadm;
pub mod inject_assert;
pub mod injection_targets;
pub mod inject_plan;
pub mod replay_plan;
pub mod loader;
pub mod datagen_plan;
pub mod source_api;
pub mod lint;
