use beancount_formatter::configuration::resolve_config;
use beancount_formatter::configuration::resolve_global_config;
use beancount_formatter::configuration::ConfigKeyMap;
use beancount_formatter::configuration::ConfigurationBuilder;
use beancount_formatter::configuration::GlobalConfiguration;
use beancount_formatter::configuration::NewLineKind;

#[test]
fn check_all_values_set() {
    let mut config = ConfigurationBuilder::new();
    config
        .new_line_kind(NewLineKind::CRLF)
        .line_width(90)
        .indent_width(4)
        .new_line_kind(NewLineKind::CRLF)
        .prefix_width(12)
        .num_width(8)
        .currency_column(40)
        .account_amount_spacing(2)
        .number_currency_spacing(3);

    let inner_config = config.get_inner_config();
    assert_eq!(inner_config.len(), 8);
    let diagnostics = resolve_config(inner_config, &GlobalConfiguration::default()).diagnostics;
    assert_eq!(diagnostics.len(), 0);
}

#[test]
fn handle_global_config() {
    let mut global_config = ConfigKeyMap::new();
    global_config.insert(String::from("line_width"), 90.into());
    global_config.insert(String::from("new_line_kind"), "crlf".into());
    global_config.insert(String::from("use_tabs"), true.into());
    let global_config = resolve_global_config(&mut global_config).config;
    let mut config_builder = ConfigurationBuilder::new();
    let config = config_builder.global_config(global_config).build();
    assert_eq!(config.line_width, 90);
    assert!(config.new_line_kind == NewLineKind::CRLF);
}

#[test]
fn use_defaults_when_global_not_set() {
    let global_config = GlobalConfiguration::default();
    let mut config_builder = ConfigurationBuilder::new();
    let config = config_builder.global_config(global_config).build();
    assert_eq!(config.indent_width, 2);
    assert!(config.new_line_kind == NewLineKind::LF);
}
