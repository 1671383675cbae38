use beancount_formatter::configuration::resolve_config;
use beancount_formatter::configuration::resolve_global_config;
use beancount_formatter::configuration::ConfigKeyMap;
use beancount_formatter::configuration::ConfigKeyValue;
use beancount_formatter::configuration::GlobalConfiguration;
use beancount_formatter::configuration::NewLineKind;

#[test]
fn unknown_key_yields_a_diagnostic_and_is_ignored() {
    let mut map = ConfigKeyMap::new();
    map.insert("foo".to_string(), 1.into());
    let result = resolve_config(map, &GlobalConfiguration::default());
    assert_eq!(result.diagnostics.len(), 1);
    assert_eq!(result.diagnostics[0].property, "foo");
    assert_eq!(
        result.diagnostics[0].message,
        "Unknown property in configuration."
    );
    assert_eq!(result.config.line_width, 120);
}

#[test]
fn numeric_text_values_parse() {
    let mut map = ConfigKeyMap::new();
    map.insert("line_width".to_string(), "88".into());
    let result = resolve_config(map, &GlobalConfiguration::default());
    assert!(result.diagnostics.is_empty());
    assert_eq!(result.config.line_width, 88);
}

#[test]
fn non_numeric_width_falls_back_with_a_diagnostic() {
    let mut map = ConfigKeyMap::new();
    map.insert("line_width".to_string(), "wide".into());
    let result = resolve_config(map, &GlobalConfiguration::default());
    assert_eq!(result.diagnostics.len(), 1);
    assert_eq!(result.diagnostics[0].property, "line_width");
    assert_eq!(
        result.diagnostics[0].message,
        "Expected a positive number for 'line_width'."
    );
    assert_eq!(result.config.line_width, 120);
}

#[test]
fn boolean_width_falls_back_with_a_diagnostic() {
    let mut map = ConfigKeyMap::new();
    map.insert("indent_width".to_string(), true.into());
    let result = resolve_config(map, &GlobalConfiguration::default());
    assert_eq!(result.diagnostics.len(), 1);
    assert_eq!(result.diagnostics[0].property, "indent_width");
    assert_eq!(result.config.indent_width, 2);
}

#[test]
fn negative_number_falls_back_with_a_diagnostic() {
    let mut map = ConfigKeyMap::new();
    map.insert("line_width".to_string(), ConfigKeyValue::Number(-4));
    let result = resolve_config(map, &GlobalConfiguration::default());
    assert_eq!(result.diagnostics.len(), 1);
    assert_eq!(result.config.line_width, 120);
}

#[test]
fn unsupported_newline_kind_falls_back_with_a_diagnostic() {
    let mut map = ConfigKeyMap::new();
    map.insert("new_line_kind".to_string(), "cr".into());
    let result = resolve_config(map, &GlobalConfiguration::default());
    assert_eq!(result.diagnostics.len(), 1);
    assert_eq!(result.diagnostics[0].property, "new_line_kind");
    assert_eq!(result.diagnostics[0].message, "Unsupported new_line_kind: cr");
    assert!(result.config.new_line_kind == NewLineKind::LF);
}

#[test]
fn format_indent_width_overrides_indent_width() {
    let mut map = ConfigKeyMap::new();
    map.insert("format_indent_width".to_string(), 6usize.into());
    map.insert("indent_width".to_string(), 3u8.into());
    let result = resolve_config(map, &GlobalConfiguration::default());
    assert_eq!(result.config.indent_width, 6);
    // with the override taken, the plain key is never consumed and is
    // reported as unknown
    assert_eq!(result.diagnostics.len(), 1);
    assert_eq!(result.diagnostics[0].property, "indent_width");
}

#[test]
fn out_of_range_indent_override_falls_back() {
    let mut map = ConfigKeyMap::new();
    map.insert("format_indent_width".to_string(), 300usize.into());
    let result = resolve_config(map, &GlobalConfiguration::default());
    assert_eq!(result.diagnostics.len(), 1);
    assert_eq!(result.diagnostics[0].property, "format_indent_width");
    assert_eq!(
        result.diagnostics[0].message,
        "Expected a value between 0 and 255 for 'format_indent_width'."
    );
    assert_eq!(result.config.indent_width, 2);
}

#[test]
fn optional_widths_resolve() {
    let mut map = ConfigKeyMap::new();
    map.insert("prefix_width".to_string(), 12usize.into());
    map.insert("num_width".to_string(), "8".into());
    let result = resolve_config(map, &GlobalConfiguration::default());
    assert!(result.diagnostics.is_empty());
    assert_eq!(result.config.prefix_width, Some(12));
    assert_eq!(result.config.num_width, Some(8));
    assert_eq!(result.config.currency_column, None);
}

#[test]
fn global_config_leaves_the_map_empty() {
    let mut map = ConfigKeyMap::new();
    map.insert("line_width".to_string(), 70u32.into());
    map.insert("mystery".to_string(), "x".into());
    let result = resolve_global_config(&mut map);
    assert!(map.is_empty());
    assert_eq!(result.config.line_width, Some(70));
    assert_eq!(result.config.indent_width, Some(2));
    assert_eq!(result.config.new_line_kind.as_deref(), Some("lf"));
    assert_eq!(result.diagnostics.len(), 1);
    assert_eq!(result.diagnostics[0].property, "mystery");
}

#[test]
fn newline_kind_parses_case_insensitively() {
    assert!(NewLineKind::parse("LF").unwrap() == NewLineKind::LF);
    assert!(NewLineKind::parse("  CrLf ").unwrap() == NewLineKind::CRLF);
    assert_eq!(NewLineKind::parse("lf").unwrap().as_str(), "lf");
    assert_eq!(NewLineKind::parse("crlf").unwrap().as_str(), "crlf");
    let err = NewLineKind::parse("cr").unwrap_err();
    assert_eq!(err, "Unsupported new_line_kind: cr");
}

#[test]
fn numeric_newline_kind_is_rendered_into_the_diagnostic() {
    let mut map = ConfigKeyMap::new();
    map.insert("new_line_kind".to_string(), ConfigKeyValue::Number(-15));
    let result = resolve_config(map, &GlobalConfiguration::default());
    assert_eq!(result.diagnostics.len(), 1);
    assert_eq!(
        result.diagnostics[0].message,
        "Unsupported new_line_kind: -15"
    );
    assert!(result.config.new_line_kind == NewLineKind::LF);
}

#[test]
fn boolean_newline_kind_is_rendered_into_the_diagnostic() {
    let mut map = ConfigKeyMap::new();
    map.insert("new_line_kind".to_string(), true.into());
    let result = resolve_config(map, &GlobalConfiguration::default());
    assert_eq!(result.diagnostics.len(), 1);
    assert_eq!(
        result.diagnostics[0].message,
        "Unsupported new_line_kind: true"
    );
}

#[test]
fn out_of_range_indent_width_falls_back_with_a_diagnostic() {
    let mut map = ConfigKeyMap::new();
    map.insert("indent_width".to_string(), ConfigKeyValue::Number(300));
    let result = resolve_config(map, &GlobalConfiguration::default());
    assert_eq!(result.diagnostics.len(), 1);
    assert_eq!(result.diagnostics[0].property, "indent_width");
    assert_eq!(
        result.diagnostics[0].message,
        "Expected a value between 0 and 255 for 'indent_width'."
    );
    assert_eq!(result.config.indent_width, 2);
}

#[test]
fn out_of_range_line_width_falls_back_with_a_diagnostic() {
    let mut map = ConfigKeyMap::new();
    map.insert("line_width".to_string(), ConfigKeyValue::Number(1 << 40));
    let result = resolve_config(map, &GlobalConfiguration::default());
    assert_eq!(result.diagnostics.len(), 1);
    assert_eq!(result.diagnostics[0].property, "line_width");
    assert_eq!(
        result.diagnostics[0].message,
        "Expected a positive number for 'line_width'."
    );
    assert_eq!(result.config.line_width, 120);
}

#[test]
fn new_line_is_accepted_as_an_alias() {
    let mut map = ConfigKeyMap::new();
    map.insert("new_line".to_string(), "crlf".into());
    let result = resolve_config(map, &GlobalConfiguration::default());
    assert!(result.diagnostics.is_empty());
    assert!(result.config.new_line_kind == NewLineKind::CRLF);
}
