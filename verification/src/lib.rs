//! Environment mapping: load key-value configuration for an environment
//! kind (`common`, `dev`, `test`, `int`, `stage`, `prod`) by merging an
//! optional OS-environment seed, an optional shared `common` file and a
//! kind-specific file into one immutable property mapping.

mod config;
mod error;
mod kind;
mod load;
mod parse;
mod props;
mod text;

pub use config::built_view;
pub use config::Config;
pub use config::ConfigBuilder;
pub use config::ConfigBuilderView;
pub use config::ConfigView;
pub use error::Error;
pub use kind::kind_of_token;
pub use kind::kind_token;
pub use kind::lemma_token_round_trip;
pub use kind::lemma_unknown_token_rejected;
pub use kind::parse_kind;
pub use kind::Kind;
pub use load::file_step;
pub use load::file_view;
pub use load::lemma_common_file_value_kept;
pub use load::lemma_kind_file_overrides;
pub use load::lemma_load_deterministic;
pub use load::lemma_missing_kind_file_is_io_failure;
pub use load::load;
pub use load::load_map;
pub use load::pairs_map;
pub use load::Environment;
pub use load::EnvironmentView;
pub use parse::eq_count;
pub use parse::eq_pos;
pub use parse::file_binds;
pub use parse::file_bound_value;
pub use parse::is_comment_line;
pub use parse::lemma_bound_key_value;
pub use parse::lemma_eq_pos_of_valid;
pub use parse::lemma_unbound_key_untouched;
pub use parse::line_key;
pub use parse::line_ok;
pub use parse::line_valid;
pub use parse::line_value;
pub use parse::lines_ok;
pub use parse::parse_props;
pub use parse::props_after;
pub use parse::split_line;
pub use props::keys_unique;
pub use props::map_of;
pub use props::Props;
pub use text::str_eq;
