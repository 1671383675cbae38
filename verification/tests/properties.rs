use beancount_formatter::configuration::Configuration;
use beancount_formatter::configuration::ConfigurationBuilder;
use beancount_formatter::configuration::NewLineKind;

fn default_config() -> Configuration {
    ConfigurationBuilder::new().build()
}

const LEDGER: &str = "2014-05-01 open Assets:Cash USD\n\n2014-05-05 * \"Cafe Mogador\" \"Lamb tagine with wine\"\n  Liabilities:CreditCard:CapitalOne   -37.45 USD\n    Expenses:Restaurant\n\n2014-06-01 balance Assets:Cash   100.00 USD\n";

#[test]
fn format_is_idempotent_on_a_ledger() {
    let config = default_config();
    let once = beancount_formatter::format(None, LEDGER, &config).unwrap();
    let twice = beancount_formatter::format(None, &once, &config).unwrap();
    assert_eq!(once, twice);
}

#[test]
fn format_is_idempotent_with_crlf() {
    let mut builder = ConfigurationBuilder::new();
    builder.new_line_kind(NewLineKind::CRLF);
    let config = builder.build();
    let once = beancount_formatter::format(None, LEDGER, &config).unwrap();
    let twice = beancount_formatter::format(None, &once, &config).unwrap();
    assert_eq!(once, twice);
}

#[test]
fn crlf_output_has_only_paired_line_breaks() {
    let mut builder = ConfigurationBuilder::new();
    builder.new_line_kind(NewLineKind::CRLF);
    let config = builder.build();
    let out = beancount_formatter::format(None, LEDGER, &config).unwrap();
    let bytes = out.as_bytes();
    for i in 0..bytes.len() {
        if bytes[i] == b'\n' {
            assert!(i > 0 && bytes[i - 1] == b'\r');
        }
        if bytes[i] == b'\r' {
            assert!(i + 1 < bytes.len() && bytes[i + 1] == b'\n');
        }
    }
}

#[test]
fn lf_output_has_no_carriage_return() {
    let config = default_config();
    let input = "2010-01-01 open Assets:Cash\r\n2010-01-02 close Assets:Cash\r\n";
    let out = beancount_formatter::format(None, input, &config).unwrap();
    assert!(!out.contains('\r'));
}

#[test]
fn output_ends_with_exactly_one_newline() {
    let config = default_config();
    let input = "2010-01-01 open Assets:Cash\n\n\n\n";
    let out = beancount_formatter::format(None, input, &config).unwrap();
    assert!(out.ends_with('\n'));
    assert!(!out.ends_with("\n\n"));
}

#[test]
fn blank_lines_are_capped_at_two() {
    let config = default_config();
    let input = "2010-01-01 open Assets:Cash\n\n\n\n\n2010-01-02 close Assets:Cash\n";
    let out = beancount_formatter::format(None, input, &config).unwrap();
    assert_eq!(
        out,
        "2010-01-01 open Assets:Cash\n\n\n2010-01-02 close Assets:Cash\n"
    );
}

#[test]
fn transaction_boundary_forces_a_blank_line() {
    let config = default_config();
    let input = "2010-01-01 open Assets:Cash\n2014-05-05 * \"Payee\" \"Narration\"\n  Assets:Cash\n";
    let out = beancount_formatter::format(None, input, &config).unwrap();
    assert_eq!(
        out,
        "2010-01-01 open Assets:Cash\n\n2014-05-05 * \"Payee\" \"Narration\"\n  Assets:Cash\n"
    );
}

#[test]
fn empty_input_formats_to_empty_output() {
    let config = default_config();
    let out = beancount_formatter::format(None, "   \n  \n", &config).unwrap();
    assert_eq!(out, "");
}

#[test]
fn already_canonical_input_is_unchanged() {
    let config = default_config();
    let input = "2010-01-01 open Assets:Cash\n";
    let out = beancount_formatter::format_text(Some("a.bean"), input, &config).unwrap();
    assert!(out.is_none());
}

#[test]
fn changed_input_returns_formatted_text() {
    let config = default_config();
    let input = "2010-01-01  open   Assets:Cash\n";
    let out = beancount_formatter::format_text(Some("a.bean"), input, &config).unwrap();
    assert_eq!(out.unwrap(), "2010-01-01 open Assets:Cash\n");
}

#[test]
fn tab_inside_string_is_preserved_outside_normalized() {
    let config = default_config();
    let input = "2014-05-05 *\t\"Payee\" \"Nar\tration\"\n  Assets:Cash\n";
    let out = beancount_formatter::format(None, input, &config).unwrap();
    assert!(out.contains("\"Nar\tration\""));
    assert!(out.contains("2014-05-05 * \"Payee\""));
}

#[test]
fn postings_reindent_to_minimum_observed_indent() {
    let mut builder = ConfigurationBuilder::new();
    builder.line_width(10);
    let config = builder.build();
    let input = "2014-05-05 * \"Payee\" \"Narration\"\n  Assets:Cash   100.00 USD\n      Expenses:Other\n";
    let out = beancount_formatter::format(None, input, &config).unwrap();
    assert_eq!(
        out,
        "2014-05-05 * \"Payee\" \"Narration\"\n  Assets:Cash 100.00 USD\n  Expenses:Other\n"
    );
}

#[test]
fn parse_error_carries_a_location() {
    let config = default_config();
    let err = beancount_formatter::format(Some("bad.bean"), "not a ledger {\n", &config)
        .unwrap_err();
    assert_eq!(err.filename, "bad.bean");
    assert!(err.line >= 1);
    assert!(err.column >= 1);
}

#[test]
fn error_filename_defaults_to_memory_placeholder() {
    let config = default_config();
    let err = beancount_formatter::format(None, "not a ledger {\n", &config).unwrap_err();
    assert_eq!(err.filename, "<memory>");
}

#[test]
fn comment_lines_pass_through() {
    let config = default_config();
    let input = "; a comment\n2010-01-01 open Assets:Cash\n";
    let out = beancount_formatter::format(None, input, &config).unwrap();
    assert_eq!(out, "; a comment\n2010-01-01 open Assets:Cash\n");
}

#[test]
fn balance_amount_is_right_aligned() {
    let mut builder = ConfigurationBuilder::new();
    builder.line_width(45);
    let config = builder.build();
    let input = "2014-06-01 balance Assets:Cash 100.00 USD\n";
    let out = beancount_formatter::format(None, input, &config).unwrap();
    // base is 30 bytes; the 10-byte amount is right-justified so its last
    // byte lands at column 43, two short of the configured width
    assert_eq!(out, "2014-06-01 balance Assets:Cash    100.00 USD\n");
}

#[test]
fn open_keeps_every_listed_currency() {
    let config = default_config();
    let input = "2010-01-01 open Assets:Cash CNY,USD\n";
    let out = beancount_formatter::format(None, input, &config).unwrap();
    assert_eq!(out, "2010-01-01 open Assets:Cash CNY USD\n");
}

#[test]
fn all_directive_kinds_render() {
    let mut builder = ConfigurationBuilder::new();
    builder.line_width(30);
    let config = builder.build();
    let input = "option \"title\" \"Ex\"\ninclude \"other.bean\"\nplugin \"a.b\" \"cfg\"\npushtag #trip\npoptag #trip\npushmeta key: value\npopmeta key:\n2015-01-01 commodity USD\n2015-01-02 price USD 1.09 CAD\n2015-01-03 event \"location\" \"NYC\"\n2015-01-04 note Assets:Cash \"a note\"\n2015-01-05 close Assets:Cash\n2015-01-06 * \"Payee\" \"Thing\"\n  tripkey: \"val\"\n    Assets:Cash  10.00 USD\n";
    let expected = "option \"title\" \"Ex\"\ninclude \"other.bean\"\nplugin \"a.b\" \"cfg\"\npushtag #trip\npoptag #trip\npushmeta key: value\npopmeta key:\n2015-01-01 commodity      USD\n2015-01-02 price USD 1.09 CAD\n2015-01-03 event \"location\" \"NYC\"\n2015-01-04 note Assets:Cash \"a note\"\n2015-01-05 close Assets:Cash\n\n2015-01-06 * \"Payee\" \"Thing\"\n  tripkey: \"val\"\n    Assets:Cash     10.00 USD\n";
    let out = beancount_formatter::format(None, input, &config).unwrap();
    assert_eq!(expected, out.as_str());
}

#[test]
fn currency_tokens_follow_the_pattern() {
    // a run longer than the pattern's 24-byte cap splits at the cap
    let long = b"ABCDEFGHIJKLMNOPQRSTUVWXY".to_vec();
    let toks = beancount_formatter::parse_currencies_from_text(&long);
    assert_eq!(toks.len(), 2);
    assert_eq!(toks[0], b"ABCDEFGHIJKLMNOPQRSTUVWX".to_vec());
    assert_eq!(toks[1], b"Y".to_vec());

    // a run that ends badly still yields its longest well-closed prefix
    let toks = beancount_formatter::parse_currencies_from_text(b"US'");
    assert_eq!(toks.len(), 1);
    assert_eq!(toks[0], b"US".to_vec());

    // interior punctuation closed by a letter is one token
    let toks = beancount_formatter::parse_currencies_from_text(b"A'B, C-2");
    assert_eq!(toks.len(), 2);
    assert_eq!(toks[0], b"A'B".to_vec());
    assert_eq!(toks[1], b"C-2".to_vec());
}

#[test]
fn directive_metadata_reindents_to_one_level() {
    let config = default_config();
    let input = "2015-01-05 close Assets:Cash\n      meta: \"v\"\n";
    let out = beancount_formatter::format(None, input, &config).unwrap();
    assert_eq!(out, "2015-01-05 close Assets:Cash\n  meta: \"v\"\n");
}

#[test]
fn blank_unicode_whitespace_input_formats_to_empty_output() {
    let config = default_config();
    let out = beancount_formatter::format(None, "\u{00A0} \u{2003}\n", &config).unwrap();
    assert_eq!(out, "");
}

#[test]
fn tab_inside_a_cost_spec_string_is_preserved() {
    let config = default_config();
    let input =
        "2014-05-05 * \"Payee\" \"Narration\"\n  Assets:Cash  1.00 BTC {10.00 USD, \"la\tbel\"}\n";
    let out = beancount_formatter::format(None, input, &config).unwrap();
    assert!(out.contains("\"la\tbel\""));
}
