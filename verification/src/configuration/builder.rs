//! Formatting configuration builder.

use vstd::prelude::*;

use super::config_types::ConfigKeyMap;
use super::config_types::ConfigKeyValue;
use super::config_types::ConfigValueView;
use super::config_types::GlobalConfiguration;
use super::config_types::spec_insert;
use super::new_line_kind::NewLineKind;
use super::resolve_config::resolve_config;
use super::resolve_config::spec_resolved;
use super::Configuration;

verus! {

/// Builds a formatting configuration out of individual settings, resolved
/// against an optional global-defaults layer.
pub struct ConfigurationBuilder {
    config: ConfigKeyMap,
    global_config: Option<GlobalConfiguration>,
}

impl ConfigurationBuilder {
    /// The key/value entries collected so far.
    pub closed spec fn map_view(&self) -> Seq<(Seq<char>, ConfigValueView)> {
        self.config@
    }

    /// The global-defaults layer set so far, if any.
    pub closed spec fn global_view(&self) -> Option<GlobalConfiguration> {
        self.global_config
    }

    /// Constructs a new configuration builder.
    pub fn new() -> (r: ConfigurationBuilder)
        ensures
            r.map_view() == Seq::<(Seq<char>, ConfigValueView)>::empty(),
            r.global_view() is None,
    {
        ConfigurationBuilder { config: ConfigKeyMap::new(), global_config: None }
    }

    /// Gets the final configuration that can be used to format a file.
    pub fn build(&self) -> (r: Configuration)
        ensures
            ({
                let lwd = match self.global_view() {
                    Some(g) => match g.line_width {
                        Some(w) => w,
                        None => super::config_types::DEFAULT_LINE_WIDTH,
                    },
                    None => super::config_types::DEFAULT_LINE_WIDTH,
                };
                let iwd = match self.global_view() {
                    Some(g) => match g.indent_width {
                        Some(w) => w,
                        None => super::config_types::DEFAULT_INDENT_WIDTH,
                    },
                    None => super::config_types::DEFAULT_INDENT_WIDTH,
                };
                let nld = match self.global_view() {
                    Some(g) => match g.new_line_kind {
                        Some(s) => s@,
                        None => "lf"@,
                    },
                    None => "lf"@,
                };
                r == spec_resolved(self.map_view(), lwd, iwd, nld)
            }),
    {
        match &self.global_config {
            Some(global_config) => resolve_config(self.config.duplicate(), global_config).config,
            None => {
                let config = self.config.duplicate();
                resolve_config(config, &GlobalConfiguration::default()).config
            },
        }
    }

    /// Set the global configuration.
    pub fn global_config(&mut self, global_config: GlobalConfiguration) -> (r: &mut Self)
        ensures
            *final(self) == *final(r),
            r.global_view() == Some(global_config),
            r.map_view() == old(self).map_view(),
    {
        self.global_config = Some(global_config);
        self
    }

    /// The width of a line the printer will try to stay under. Note that
    /// the printer may exceed this width in certain cases.
    pub fn line_width(&mut self, value: u32) -> (r: &mut Self)
        ensures
            *final(self) == *final(r),
            r.map_view() == spec_insert(
                old(self).map_view(),
                "line_width"@,
                ConfigValueView::Number(value as i64),
            ),
            r.global_view() == old(self).global_view(),
    {
        self.config.insert(String::from_str("line_width"), ConfigKeyValue::Number(value as i64));
        self
    }

    /// The number of columns for an indent.
    pub fn indent_width(&mut self, value: u8) -> (r: &mut Self)
        ensures
            *final(self) == *final(r),
            r.map_view() == spec_insert(
                old(self).map_view(),
                "indent_width"@,
                ConfigValueView::Number(value as i64),
            ),
            r.global_view() == old(self).global_view(),
    {
        self.config.insert(String::from_str("indent_width"), ConfigKeyValue::Number(value as i64));
        self
    }

    /// The kind of newline to use.
    pub fn new_line_kind(&mut self, value: NewLineKind) -> (r: &mut Self)
        ensures
            *final(self) == *final(r),
            r.map_view() == spec_insert(
                old(self).map_view(),
                "new_line_kind"@,
                ConfigValueView::Text(
                    if value == NewLineKind::LF {
                        "lf"@
                    } else {
                        "crlf"@
                    },
                ),
            ),
            r.global_view() == old(self).global_view(),
    {
        self.config.insert(
            String::from_str("new_line_kind"),
            ConfigKeyValue::Text(String::from_str(value.as_str())),
        );
        self
    }

    /// Use this prefix width instead of determining an optimal value
    /// automatically.
    pub fn prefix_width(&mut self, value: usize) -> (r: &mut Self)
        ensures
            *final(self) == *final(r),
            r.map_view() == spec_insert(
                old(self).map_view(),
                "prefix_width"@,
                ConfigValueView::Number(value as i64),
            ),
            r.global_view() == old(self).global_view(),
    {
        self.config.insert(String::from_str("prefix_width"), ConfigKeyValue::Number(value as i64));
        self
    }

    /// Use this width to render numbers instead of determining an optimal
    /// value.
    pub fn num_width(&mut self, value: usize) -> (r: &mut Self)
        ensures
            *final(self) == *final(r),
            r.map_view() == spec_insert(
                old(self).map_view(),
                "num_width"@,
                ConfigValueView::Number(value as i64),
            ),
            r.global_view() == old(self).global_view(),
    {
        self.config.insert(String::from_str("num_width"), ConfigKeyValue::Number(value as i64));
        self
    }

    /// Align currencies in this column.
    pub fn currency_column(&mut self, value: usize) -> (r: &mut Self)
        ensures
            *final(self) == *final(r),
            r.map_view() == spec_insert(
                old(self).map_view(),
                "currency_column"@,
                ConfigValueView::Number(value as i64),
            ),
            r.global_view() == old(self).global_view(),
    {
        self.config.insert(String::from_str("currency_column"), ConfigKeyValue::Number(value as i64));
        self
    }

    /// Spacing between account names and amounts.
    pub fn account_amount_spacing(&mut self, value: usize) -> (r: &mut Self)
        ensures
            *final(self) == *final(r),
            r.map_view() == spec_insert(
                old(self).map_view(),
                "account_amount_spacing"@,
                ConfigValueView::Number(value as i64),
            ),
            r.global_view() == old(self).global_view(),
    {
        self.config.insert(String::from_str("account_amount_spacing"), ConfigKeyValue::Number(value as i64));
        self
    }

    /// Number of spaces between the number and currency.
    pub fn number_currency_spacing(&mut self, value: usize) -> (r: &mut Self)
        ensures
            *final(self) == *final(r),
            r.map_view() == spec_insert(
                old(self).map_view(),
                "number_currency_spacing"@,
                ConfigValueView::Number(value as i64),
            ),
            r.global_view() == old(self).global_view(),
    {
        self.config.insert(String::from_str("number_currency_spacing"), ConfigKeyValue::Number(value as i64));
        self
    }

    /// The raw entries collected so far.
    pub fn get_inner_config(&self) -> (r: ConfigKeyMap)
        ensures
            r@ == self.map_view(),
    {
        self.config.duplicate()
    }

}

impl Default for ConfigurationBuilder {
    fn default() -> (r: Self)
        ensures
            r.map_view() == Seq::<(Seq<char>, ConfigValueView)>::empty(),
            r.global_view() is None,
    {
        ConfigurationBuilder::new()
    }
}

} // verus!
