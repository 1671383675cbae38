//! Formatting configuration: the strongly typed settings the engine reads,
//! the generic key/value map they are resolved from, and the resolver.

mod builder;
mod config_types;
mod new_line_kind;
mod resolve_config;

pub use builder::ConfigurationBuilder;
pub use config_types::assoc_idx;
pub use config_types::diag_views;
pub use config_types::has_key;
pub use config_types::spec_insert;
pub use config_types::ConfigKeyMap;
pub use config_types::ConfigKeyValue;
pub use config_types::ConfigurationDiagnostic;
pub use config_types::GlobalConfiguration;
pub use config_types::ResolveConfigurationResult;
pub use config_types::DEFAULT_INDENT_WIDTH;
pub use config_types::DEFAULT_LINE_WIDTH;
pub use new_line_kind::newline_key;
pub use new_line_kind::NewLineKind;
pub use resolve_config::indent_override_names;
pub use resolve_config::name_views;
pub use resolve_config::nl_msg;
pub use resolve_config::nl_of_text;
pub use resolve_config::num_msg;
pub use resolve_config::opt_diag_piece;
pub use resolve_config::range_byte_msg;
pub use resolve_config::range_msg;
pub use resolve_config::removed_map;
pub use resolve_config::removed_val;
pub use resolve_config::resolve_config;
pub use resolve_config::resolve_global_config;
pub use resolve_config::spec_get_string;
pub use resolve_config::spec_get_u32_diag;
pub use resolve_config::spec_get_u32_val;
pub use resolve_config::spec_get_u8_diag;
pub use resolve_config::spec_get_u8_val;
pub use resolve_config::spec_indent_value;
pub use resolve_config::spec_opt_diag;
pub use resolve_config::spec_opt_map;
pub use resolve_config::spec_opt_val;
pub use resolve_config::spec_parse_nl;
pub use resolve_config::spec_parse_nl_diag;
pub use resolve_config::spec_resolved;
pub use resolve_config::text_parses;
pub use resolve_config::text_val;
pub use resolve_config::u32_diag_piece;
pub use resolve_config::u8_diag_piece;
pub use resolve_config::unknown_diag_views;

use vstd::prelude::*;

verus! {

/// The resolved, strongly typed formatter configuration.
#[derive(Debug, Clone, PartialEq)]
pub struct Configuration {
    /// The width of a line the printer will try to stay under. The printer
    /// may exceed this width in certain cases.
    pub line_width: u32,
    /// The number of columns for an indent.
    pub indent_width: u8,
    /// The kind of newline to use.
    pub new_line_kind: NewLineKind,
    /// Use this prefix width instead of determining an optimal value
    /// automatically.
    pub prefix_width: Option<usize>,
    /// Use this width to render numbers instead of determining an optimal
    /// value.
    pub num_width: Option<usize>,
    /// Align currencies in this column.
    pub currency_column: Option<usize>,
    /// Spacing between account names and amounts.
    pub account_amount_spacing: Option<usize>,
    /// Number of spaces between the number and currency.
    pub number_currency_spacing: Option<usize>,
}

impl Default for Configuration {
    fn default() -> (r: Self)
        ensures
            r == Configuration::default_spec(),
    {
        Configuration {
            line_width: DEFAULT_LINE_WIDTH,
            indent_width: DEFAULT_INDENT_WIDTH,
            new_line_kind: NewLineKind::LF,
            prefix_width: None,
            num_width: None,
            currency_column: None,
            account_amount_spacing: None,
            number_currency_spacing: None,
        }
    }
}

impl Configuration {
    /// The built-in defaults.
    pub open spec fn default_spec() -> Configuration {
        Configuration {
            line_width: DEFAULT_LINE_WIDTH,
            indent_width: DEFAULT_INDENT_WIDTH,
            new_line_kind: NewLineKind::LF,
            prefix_width: None,
            num_width: None,
            currency_column: None,
            account_amount_spacing: None,
            number_currency_spacing: None,
        }
    }
}

} // verus!
