//! Resolves configuration from a collection of key value strings.
//!
//! Every recognized key is looked up by name, removed from the map as it is
//! consumed, and either parsed into its typed field or replaced by a default
//! with a diagnostic; remaining keys yield "unknown property" diagnostics.
//! Resolution never fails.

use vstd::prelude::*;

use super::config_types::diag_views;
use super::config_types::has_key;
use super::config_types::assoc_idx;
use super::config_types::ConfigKeyMap;
use super::config_types::ConfigKeyValue;
use super::config_types::ConfigValueView;
use super::config_types::ConfigurationDiagnostic;
use super::config_types::GlobalConfiguration;
use super::config_types::ResolveConfigurationResult;
use super::config_types::DEFAULT_INDENT_WIDTH;
use super::config_types::DEFAULT_LINE_WIDTH;
use super::new_line_kind::newline_key;
use super::new_line_kind::NewLineKind;
use super::Configuration;
use crate::text::dec_chars;
use crate::text::digits_val;
use crate::text::i64_to_string;
use crate::text::num_body;
use crate::text::parse_uint_bytes;
use crate::text::parses_as_uint;
use vstd::string::StringSliceAdditionalSpecFns;
use vstd::utf8::encode_utf8;

verus! {

/// The value removed by looking up `k`, if any.
pub open spec fn removed_val(
    m: Seq<(Seq<char>, ConfigValueView)>,
    k: Seq<char>,
) -> Option<ConfigValueView> {
    if has_key(m, k) {
        Some(m[assoc_idx(m, k)].1)
    } else {
        None
    }
}

/// The map after looking up (and consuming) `k`.
pub open spec fn removed_map(m: Seq<(Seq<char>, ConfigValueView)>, k: Seq<char>) -> Seq<
    (Seq<char>, ConfigValueView),
> {
    if has_key(m, k) {
        m.remove(assoc_idx(m, k))
    } else {
        m
    }
}

/// The diagnostic message for a value that is not a positive number.
pub open spec fn num_msg(name: Seq<char>) -> Seq<char> {
    "Expected a positive number for '"@ + name + "'."@
}

/// Whether a text value parses as an unsigned decimal no larger than `max`.
pub open spec fn text_parses(t: Seq<char>, max: int) -> bool {
    parses_as_uint(encode_utf8(t), max)
}

/// The parsed value of a text value.
pub open spec fn text_val(t: Seq<char>) -> int {
    digits_val(num_body(encode_utf8(t)))
}

/// The value `get_u32` resolves for `name`.
pub open spec fn spec_get_u32_val(
    m: Seq<(Seq<char>, ConfigValueView)>,
    k: Seq<char>,
    default: u32,
) -> u32 {
    match removed_val(m, k) {
        Option::None => default,
        Option::Some(ConfigValueView::Number(v)) => if 0 <= v <= u32::MAX {
            v as u32
        } else {
            default
        },
        Option::Some(ConfigValueView::Text(t)) => if text_parses(t, u32::MAX as int) {
            text_val(t) as u32
        } else {
            default
        },
        Option::Some(ConfigValueView::Bool(_)) => default,
    }
}

/// Whether `get_u32` reports a diagnostic for `name`: a negative or
/// out-of-range number, unparsable text, or a boolean.
pub open spec fn spec_get_u32_diag(m: Seq<(Seq<char>, ConfigValueView)>, k: Seq<char>) -> bool {
    match removed_val(m, k) {
        Option::None => false,
        Option::Some(ConfigValueView::Number(v)) => v < 0 || v > u32::MAX,
        Option::Some(ConfigValueView::Text(t)) => !text_parses(t, u32::MAX as int),
        Option::Some(ConfigValueView::Bool(_)) => true,
    }
}

/// The diagnostic message for a value outside a byte-sized range.
pub open spec fn range_byte_msg(name: Seq<char>) -> Seq<char> {
    "Expected a value between 0 and 255 for '"@ + name + "'."@
}

/// The value `get_u8` resolves for `name`: the `get_u32` value when it fits
/// a byte, the default otherwise.
pub open spec fn spec_get_u8_val(
    m: Seq<(Seq<char>, ConfigValueView)>,
    k: Seq<char>,
    default: u8,
) -> u8 {
    let v = spec_get_u32_val(m, k, default as u32);
    if v <= 255 {
        v as u8
    } else {
        default
    }
}

/// The diagnostic `get_u8` reports for `name`, if any.
pub open spec fn spec_get_u8_diag(
    m: Seq<(Seq<char>, ConfigValueView)>,
    k: Seq<char>,
) -> Option<Seq<char>> {
    if spec_get_u32_diag(m, k) {
        Some(num_msg(k))
    } else if spec_get_u32_val(m, k, 0) > 255 && (removed_val(m, k) is Some) {
        Some(range_byte_msg(k))
    } else {
        None
    }
}

/// Builds the "expected a positive number" diagnostic for `name`.
fn push_num_diag(diagnostics: &mut Vec<ConfigurationDiagnostic>, name: &str)
    ensures
        diag_views(final(diagnostics)@) == diag_views(old(diagnostics)@).push(
            (name@, num_msg(name@)),
        ),
{
    let mut message = String::from_str("Expected a positive number for '");
    message.append(name);
    message.append("'.");
    let d = ConfigurationDiagnostic { property: String::from_str(name), message };
    let ghost dv = (d.property@, d.message@);
    diagnostics.push(d);
    proof {
        assert(diag_views(final(diagnostics)@) =~= diag_views(old(diagnostics)@).push(dv));
    }
}

fn get_u32(
    config: &mut ConfigKeyMap,
    name: &str,
    default_value: u32,
    diagnostics: &mut Vec<ConfigurationDiagnostic>,
) -> (r: u32)
    ensures
        final(config)@ == removed_map(old(config)@, name@),
        r == spec_get_u32_val(old(config)@, name@, default_value),
        diag_views(final(diagnostics)@) == if spec_get_u32_diag(old(config)@, name@) {
            diag_views(old(diagnostics)@).push((name@, num_msg(name@)))
        } else {
            diag_views(old(diagnostics)@)
        },
{
    match config.remove(name) {
        Some(ConfigKeyValue::Number(value)) => {
            if 0 <= value && value <= u32::MAX as i64 {
                value as u32
            } else {
                push_num_diag(diagnostics, name);
                default_value
            }
        },
        Some(ConfigKeyValue::Text(text)) => {
            match parse_uint_bytes(text.as_str().as_bytes(), u32::MAX as u64) {
                Some(v) => v as u32,
                None => {
                    push_num_diag(diagnostics, name);
                    default_value
                },
            }
        },
        Some(ConfigKeyValue::Bool(_)) => {
            push_num_diag(diagnostics, name);
            default_value
        },
        None => default_value,
    }
}

/// Builds the "expected a value between 0 and 255" diagnostic for `name`.
fn push_range_byte_diag(diagnostics: &mut Vec<ConfigurationDiagnostic>, name: &str)
    ensures
        diag_views(final(diagnostics)@) == diag_views(old(diagnostics)@).push(
            (name@, range_byte_msg(name@)),
        ),
{
    let mut message = String::from_str("Expected a value between 0 and 255 for '");
    message.append(name);
    message.append("'.");
    let d = ConfigurationDiagnostic { property: String::from_str(name), message };
    let ghost dv = (d.property@, d.message@);
    diagnostics.push(d);
    proof {
        assert(diag_views(final(diagnostics)@) =~= diag_views(old(diagnostics)@).push(dv));
    }
}

fn get_u8(
    config: &mut ConfigKeyMap,
    name: &str,
    default_value: u8,
    diagnostics: &mut Vec<ConfigurationDiagnostic>,
) -> (r: u8)
    ensures
        final(config)@ == removed_map(old(config)@, name@),
        r == spec_get_u8_val(old(config)@, name@, default_value),
        diag_views(final(diagnostics)@) == diag_views(old(diagnostics)@) + u8_diag_piece(
            old(config)@,
            name@,
        ),
{
    let value = get_u32(config, name, default_value as u32, diagnostics);
    if value <= 255 {
        proof {
            assert(diag_views(diagnostics@) =~= diag_views(old(diagnostics)@) + u8_diag_piece(
                old(config)@,
                name@,
            ));
        }
        value as u8
    } else {
        push_range_byte_diag(diagnostics, name);
        proof {
            assert(diag_views(diagnostics@) =~= diag_views(old(diagnostics)@) + u8_diag_piece(
                old(config)@,
                name@,
            ));
        }
        default_value
    }
}

/// The optional value `get_usize_option_keys` resolves over `names` from
/// position `i` on.
pub open spec fn spec_opt_val(
    m: Seq<(Seq<char>, ConfigValueView)>,
    names: Seq<Seq<char>>,
    i: int,
) -> Option<usize>
    decreases names.len() - i,
{
    if i < 0 || i >= names.len() {
        None
    } else if !has_key(m, names[i]) {
        spec_opt_val(m, names, i + 1)
    } else {
        match removed_val(m, names[i]) {
            Option::Some(ConfigValueView::Number(v)) => if 0 <= v <= usize::MAX {
                Some(v as usize)
            } else {
                None
            },
            Option::Some(ConfigValueView::Text(t)) => if text_parses(t, usize::MAX as int) {
                Some(text_val(t) as usize)
            } else {
                None
            },
            _ => None,
        }
    }
}

/// The map after `get_usize_option_keys` consumed what it looked at.
pub open spec fn spec_opt_map(
    m: Seq<(Seq<char>, ConfigValueView)>,
    names: Seq<Seq<char>>,
    i: int,
) -> Seq<(Seq<char>, ConfigValueView)>
    decreases names.len() - i,
{
    if i < 0 || i >= names.len() {
        m
    } else if !has_key(m, names[i]) {
        spec_opt_map(m, names, i + 1)
    } else {
        removed_map(m, names[i])
    }
}

/// The property `get_usize_option_keys` reports a diagnostic for, if any.
pub open spec fn spec_opt_diag(
    m: Seq<(Seq<char>, ConfigValueView)>,
    names: Seq<Seq<char>>,
    i: int,
) -> Option<Seq<char>>
    decreases names.len() - i,
{
    if i < 0 || i >= names.len() {
        None
    } else if !has_key(m, names[i]) {
        spec_opt_diag(m, names, i + 1)
    } else {
        match removed_val(m, names[i]) {
            Option::Some(ConfigValueView::Number(v)) => if 0 <= v <= usize::MAX {
                None
            } else {
                Some(names[i])
            },
            Option::Some(ConfigValueView::Text(t)) => if text_parses(t, usize::MAX as int) {
                None
            } else {
                Some(names[i])
            },
            _ => Some(names[i]),
        }
    }
}

/// The views of a list of names.
pub open spec fn name_views(names: Seq<&str>) -> Seq<Seq<char>> {
    names.map_values(|s: &str| s@)
}

fn get_usize_option_keys(
    config: &mut ConfigKeyMap,
    names: &[&str],
    diagnostics: &mut Vec<ConfigurationDiagnostic>,
) -> (r: Option<usize>)
    ensures
        r == spec_opt_val(old(config)@, name_views(names@), 0),
        final(config)@ == spec_opt_map(old(config)@, name_views(names@), 0),
        diag_views(final(diagnostics)@) == match spec_opt_diag(
            old(config)@,
            name_views(names@),
            0,
        ) {
            Some(p) => diag_views(old(diagnostics)@).push((p, num_msg(p))),
            None => diag_views(old(diagnostics)@),
        },
{
    let ghost nv = name_views(names@);
    let mut i: usize = 0;
    while i < names.len()
        invariant
            i <= names@.len(),
            nv == name_views(names@),
            nv.len() == names@.len(),
            forall|j: int| 0 <= j < nv.len() ==> nv[j] == names@[j]@,
            spec_opt_val(old(config)@, nv, 0) == spec_opt_val(config@, nv, i as int),
            spec_opt_map(old(config)@, nv, 0) == spec_opt_map(config@, nv, i as int),
            spec_opt_diag(old(config)@, nv, 0) == spec_opt_diag(config@, nv, i as int),
            diagnostics@ == old(diagnostics)@,
        decreases names@.len() - i,
    {
        let name = names[i];
        match config.remove(name) {
            Some(ConfigKeyValue::Number(value)) => {
                if 0 <= value && value as u64 <= usize::MAX as u64 {
                    return Some(value as usize);
                } else {
                    push_num_diag(diagnostics, name);
                    return None;
                }
            },
            Some(ConfigKeyValue::Text(text)) => {
                match parse_uint_bytes(text.as_str().as_bytes(), usize::MAX as u64) {
                    Some(v) => {
                        return Some(v as usize);
                    },
                    None => {
                        push_num_diag(diagnostics, name);
                        return None;
                    },
                }
            },
            Some(ConfigKeyValue::Bool(_)) => {
                push_num_diag(diagnostics, name);
                return None;
            },
            None => {},
        }
        i = i + 1;
    }
    None
}

/// The string `get_string` resolves for `name`.
pub open spec fn spec_get_string(
    m: Seq<(Seq<char>, ConfigValueView)>,
    k: Seq<char>,
    default: Seq<char>,
) -> Seq<char> {
    match removed_val(m, k) {
        Option::None => default,
        Option::Some(ConfigValueView::Text(t)) => t,
        Option::Some(ConfigValueView::Bool(b)) => if b {
            "true"@
        } else {
            "false"@
        },
        Option::Some(ConfigValueView::Number(n)) => dec_chars(n as int),
    }
}

fn get_string(config: &mut ConfigKeyMap, name: &str, default_value: &str) -> (r: String)
    ensures
        final(config)@ == removed_map(old(config)@, name@),
        r@ == spec_get_string(old(config)@, name@, default_value@),
{
    match config.remove(name) {
        Some(ConfigKeyValue::Text(value)) => value,
        Some(ConfigKeyValue::Bool(value)) => {
            if value {
                String::from_str("true")
            } else {
                String::from_str("false")
            }
        },
        Some(ConfigKeyValue::Number(value)) => i64_to_string(value),
        None => String::from_str(default_value),
    }
}

/// The newline kind a (lowercased, trimmed) raw text selects, if any.
pub open spec fn nl_of_text(raw: Seq<char>) -> Option<NewLineKind> {
    if newline_key(encode_utf8(raw)) == "lf".spec_bytes() {
        Some(NewLineKind::LF)
    } else if newline_key(encode_utf8(raw)) == "crlf".spec_bytes() {
        Some(NewLineKind::CRLF)
    } else {
        None
    }
}

/// The newline kind `parse_new_line_kind` resolves.
pub open spec fn spec_parse_nl(
    m: Seq<(Seq<char>, ConfigValueView)>,
    k: Seq<char>,
    default: Seq<char>,
) -> NewLineKind {
    match nl_of_text(spec_get_string(m, k, default)) {
        Some(kind) => kind,
        None => match nl_of_text(default) {
            Some(kind) => kind,
            None => NewLineKind::LF,
        },
    }
}

/// Whether `parse_new_line_kind` reports a diagnostic.
pub open spec fn spec_parse_nl_diag(
    m: Seq<(Seq<char>, ConfigValueView)>,
    k: Seq<char>,
    default: Seq<char>,
) -> bool {
    nl_of_text(spec_get_string(m, k, default)) is None
}

/// The diagnostic message for an unsupported newline kind.
pub open spec fn nl_msg(raw: Seq<char>) -> Seq<char> {
    "Unsupported new_line_kind: "@ + raw
}

/// The key the newline style is read from: `new_line_kind` when present,
/// else its recognized alias `new_line`.
pub open spec fn nl_key_name(m: Seq<(Seq<char>, ConfigValueView)>) -> Seq<char> {
    if has_key(m, "new_line_kind"@) {
        "new_line_kind"@
    } else {
        "new_line"@
    }
}

fn parse_new_line_kind(
    config: &mut ConfigKeyMap,
    default_value: &str,
    diagnostics: &mut Vec<ConfigurationDiagnostic>,
) -> (r: NewLineKind)
    ensures
        ({
            let k = nl_key_name(old(config)@);
            &&& final(config)@ == removed_map(old(config)@, k)
            &&& r == spec_parse_nl(old(config)@, k, default_value@)
            &&& diag_views(final(diagnostics)@) == if spec_parse_nl_diag(
                old(config)@,
                k,
                default_value@,
            ) {
                diag_views(old(diagnostics)@).push(
                    (k, nl_msg(spec_get_string(old(config)@, k, default_value@))),
                )
            } else {
                diag_views(old(diagnostics)@)
            }
        }),
{
    let name: &str = if config.contains_key("new_line_kind") {
        "new_line_kind"
    } else {
        "new_line"
    };
    proof {
        assert(name@ == nl_key_name(old(config)@));
    }
    let raw_value = get_string(config, name, default_value);
    match NewLineKind::parse(raw_value.as_str()) {
        Ok(kind) => kind,
        Err(message) => {
            let d = ConfigurationDiagnostic { property: String::from_str(name), message };
            let ghost dv = (d.property@, d.message@);
            diagnostics.push(d);
            proof {
                assert(diag_views(final(diagnostics)@) =~= diag_views(old(diagnostics)@).push(
                    dv,
                ));
            }
            match NewLineKind::parse(default_value) {
                Ok(kind) => kind,
                Err(_) => NewLineKind::LF,
            }
        },
    }
}

/// The "unknown property" diagnostics for what is left in the map, in order.
pub open spec fn unknown_diag_views(m: Seq<(Seq<char>, ConfigValueView)>) -> Seq<
    (Seq<char>, Seq<char>),
> {
    m.map_values(|p: (Seq<char>, ConfigValueView)| (p.0, "Unknown property in configuration."@))
}

fn get_unknown_property_diagnostics(config: ConfigKeyMap) -> (r: Vec<ConfigurationDiagnostic>)
    ensures
        diag_views(r@) == unknown_diag_views(config@),
{
    let keys = config.keys();
    let mut out: Vec<ConfigurationDiagnostic> = Vec::new();
    let mut i: usize = 0;
    while i < keys.len()
        invariant
            i <= keys@.len(),
            keys@.len() == config@.len(),
            forall|j: int| 0 <= j < keys@.len() ==> keys@[j]@ == config@[j].0,
            out@.len() == i,
            forall|j: int|
                0 <= j < i ==> (#[trigger] out@[j]).property@ == config@[j].0 && out@[j].message@
                    == "Unknown property in configuration."@,
        decreases keys@.len() - i,
    {
        let d = ConfigurationDiagnostic {
            property: keys[i].clone(),
            message: String::from_str("Unknown property in configuration."),
        };
        out.push(d);
        i = i + 1;
    }
    proof {
        assert(diag_views(out@) =~= unknown_diag_views(config@));
    }
    out
}

/// The single recognized override list for the indent width.
pub open spec fn indent_override_names() -> Seq<Seq<char>> {
    seq!["format_indent_width"@]
}

/// The diagnostic message for an out-of-range indent override.
pub open spec fn range_msg() -> Seq<char> {
    "Expected a value between 0 and 255 for 'format_indent_width'."@
}

/// The indent width `resolve_config` settles on.
pub open spec fn spec_indent_value(m0: Seq<(Seq<char>, ConfigValueView)>, default: u8) -> u8 {
    match spec_opt_val(m0, indent_override_names(), 0) {
        Some(v) => if v <= 255 {
            v as u8
        } else {
            default
        },
        None => spec_get_u8_val(
            spec_opt_map(m0, indent_override_names(), 0),
            "indent_width"@,
            default,
        ),
    }
}

/// The diagnostics one optional-key lookup contributes.
pub open spec fn opt_diag_piece(
    m: Seq<(Seq<char>, ConfigValueView)>,
    names: Seq<Seq<char>>,
) -> Seq<(Seq<char>, Seq<char>)> {
    match spec_opt_diag(m, names, 0) {
        Some(p) => seq![(p, num_msg(p))],
        None => Seq::empty(),
    }
}

/// The diagnostics one `get_u32` lookup contributes.
pub open spec fn u32_diag_piece(m: Seq<(Seq<char>, ConfigValueView)>, k: Seq<char>) -> Seq<
    (Seq<char>, Seq<char>),
> {
    if spec_get_u32_diag(m, k) {
        seq![(k, num_msg(k))]
    } else {
        Seq::empty()
    }
}

/// The diagnostics one `get_u8` lookup contributes.
pub open spec fn u8_diag_piece(m: Seq<(Seq<char>, ConfigValueView)>, k: Seq<char>) -> Seq<
    (Seq<char>, Seq<char>),
> {
    match spec_get_u8_diag(m, k) {
        Some(msg) => seq![(k, msg)],
        None => Seq::empty(),
    }
}

/// Resolves the indent-width override, the indent width and the line width,
/// in that order.
fn resolve_widths(
    config: &mut ConfigKeyMap,
    line_width_default: u32,
    indent_width_default: u8,
    diagnostics: &mut Vec<ConfigurationDiagnostic>,
) -> (r: (u32, u8))
    ensures
        ({
            let ov = spec_opt_val(old(config)@, indent_override_names(), 0);
            let m1 = spec_opt_map(old(config)@, indent_override_names(), 0);
            let m2 = if ov is Some {
                m1
            } else {
                removed_map(m1, "indent_width"@)
            };
            let d_override = opt_diag_piece(old(config)@, indent_override_names());
            let d_indent = match ov {
                Some(v) => if v > 255 {
                    seq![("format_indent_width"@, range_msg())]
                } else {
                    Seq::<(Seq<char>, Seq<char>)>::empty()
                },
                None => u8_diag_piece(m1, "indent_width"@),
            };
            let d_lw = u32_diag_piece(m2, "line_width"@);
            &&& final(config)@ == removed_map(m2, "line_width"@)
            &&& r.0 == spec_get_u32_val(m2, "line_width"@, line_width_default)
            &&& r.1 == spec_indent_value(old(config)@, indent_width_default)
            &&& diag_views(final(diagnostics)@) == diag_views(old(diagnostics)@) + d_override
                + d_indent + d_lw
        }),
{
    let ghost dv0 = diag_views(diagnostics@);
    let override_names: [&str; 1] = ["format_indent_width"];
    proof {
        assert(name_views(override_names@) =~= indent_override_names());
    }
    let format_indent_override = get_usize_option_keys(
        config,
        override_names.as_slice(),
        &mut *diagnostics,
    );
    let ghost dv1 = diag_views(diagnostics@);

    let indent_width_value: u8 = match format_indent_override {
        Some(value) => {
            if value <= 255 {
                value as u8
            } else {
                let message = String::from_str(
                    "Expected a value between 0 and 255 for 'format_indent_width'.",
                );
                let property = String::from_str("format_indent_width");
                let ghost dv = (property@, message@);
                diagnostics.push(ConfigurationDiagnostic { property, message });
                proof {
                    assert(diag_views(diagnostics@) =~= dv1.push(dv));
                }
                indent_width_default
            }
        },
        None => get_u8(config, "indent_width", indent_width_default, &mut *diagnostics),
    };
    let ghost dv2 = diag_views(diagnostics@);

    let line_width = get_u32(config, "line_width", line_width_default, &mut *diagnostics);
    proof {
        let ov = spec_opt_val(old(config)@, indent_override_names(), 0);
        let m1 = spec_opt_map(old(config)@, indent_override_names(), 0);
        let m2 = if ov is Some {
            m1
        } else {
            removed_map(m1, "indent_width"@)
        };
        let d_override = opt_diag_piece(old(config)@, indent_override_names());
        let d_indent = match ov {
            Some(v) => if v > 255 {
                seq![("format_indent_width"@, range_msg())]
            } else {
                Seq::<(Seq<char>, Seq<char>)>::empty()
            },
            None => u8_diag_piece(m1, "indent_width"@),
        };
        let d_lw = u32_diag_piece(m2, "line_width"@);
        assert(dv1 =~= dv0 + d_override);
        assert(dv2 =~= dv0 + d_override + d_indent);
        assert(diag_views(diagnostics@) =~= dv0 + d_override + d_indent + d_lw);
    }
    (line_width, indent_width_value)
}

/// Resolves the five optional width/spacing overrides, in order.
fn resolve_optionals(config: &mut ConfigKeyMap, diagnostics: &mut Vec<ConfigurationDiagnostic>)
    -> (r: (Option<usize>, Option<usize>, Option<usize>, Option<usize>, Option<usize>))
    ensures
        ({
            let m4 = old(config)@;
            let m5 = spec_opt_map(m4, seq!["prefix_width"@], 0);
            let m6 = spec_opt_map(m5, seq!["num_width"@], 0);
            let m7 = spec_opt_map(m6, seq!["currency_column"@], 0);
            let m8 = spec_opt_map(m7, seq!["account_amount_spacing"@], 0);
            &&& final(config)@ == spec_opt_map(m8, seq!["number_currency_spacing"@], 0)
            &&& r.0 == spec_opt_val(m4, seq!["prefix_width"@], 0)
            &&& r.1 == spec_opt_val(m5, seq!["num_width"@], 0)
            &&& r.2 == spec_opt_val(m6, seq!["currency_column"@], 0)
            &&& r.3 == spec_opt_val(m7, seq!["account_amount_spacing"@], 0)
            &&& r.4 == spec_opt_val(m8, seq!["number_currency_spacing"@], 0)
            &&& diag_views(final(diagnostics)@) == diag_views(old(diagnostics)@) + opt_diag_piece(
                m4,
                seq!["prefix_width"@],
            ) + opt_diag_piece(m5, seq!["num_width"@]) + opt_diag_piece(
                m6,
                seq!["currency_column"@],
            ) + opt_diag_piece(m7, seq!["account_amount_spacing"@]) + opt_diag_piece(
                m8,
                seq!["number_currency_spacing"@],
            )
        }),
{
    let ghost dv0 = diag_views(diagnostics@);
    let prefix_names: [&str; 1] = ["prefix_width"];
    proof {
        assert(name_views(prefix_names@) =~= seq!["prefix_width"@]);
    }
    let prefix_width = get_usize_option_keys(config, prefix_names.as_slice(), &mut *diagnostics);
    let ghost dv1 = diag_views(diagnostics@);
    let num_names: [&str; 1] = ["num_width"];
    proof {
        assert(name_views(num_names@) =~= seq!["num_width"@]);
    }
    let num_width = get_usize_option_keys(config, num_names.as_slice(), &mut *diagnostics);
    let ghost dv2 = diag_views(diagnostics@);
    let currency_names: [&str; 1] = ["currency_column"];
    proof {
        assert(name_views(currency_names@) =~= seq!["currency_column"@]);
    }
    let currency_column = get_usize_option_keys(config, currency_names.as_slice(), &mut *diagnostics);
    let ghost dv3 = diag_views(diagnostics@);
    let account_names: [&str; 1] = ["account_amount_spacing"];
    proof {
        assert(name_views(account_names@) =~= seq!["account_amount_spacing"@]);
    }
    let account_amount_spacing = get_usize_option_keys(
        config,
        account_names.as_slice(),
        &mut *diagnostics,
    );
    let ghost dv4 = diag_views(diagnostics@);
    let number_names: [&str; 1] = ["number_currency_spacing"];
    proof {
        assert(name_views(number_names@) =~= seq!["number_currency_spacing"@]);
    }
    let number_currency_spacing = get_usize_option_keys(
        config,
        number_names.as_slice(),
        &mut *diagnostics,
    );
    proof {
        let m4 = old(config)@;
        let m5 = spec_opt_map(m4, seq!["prefix_width"@], 0);
        let m6 = spec_opt_map(m5, seq!["num_width"@], 0);
        let m7 = spec_opt_map(m6, seq!["currency_column"@], 0);
        let m8 = spec_opt_map(m7, seq!["account_amount_spacing"@], 0);
        assert(dv1 =~= dv0 + opt_diag_piece(m4, seq!["prefix_width"@]));
        assert(dv2 =~= dv1 + opt_diag_piece(m5, seq!["num_width"@]));
        assert(dv3 =~= dv2 + opt_diag_piece(m6, seq!["currency_column"@]));
        assert(dv4 =~= dv3 + opt_diag_piece(m7, seq!["account_amount_spacing"@]));
        assert(diag_views(diagnostics@) =~= dv4 + opt_diag_piece(
            m8,
            seq!["number_currency_spacing"@],
        ));
        assert(diag_views(diagnostics@) =~= dv0 + opt_diag_piece(m4, seq!["prefix_width"@])
            + opt_diag_piece(m5, seq!["num_width"@]) + opt_diag_piece(
            m6,
            seq!["currency_column"@],
        ) + opt_diag_piece(m7, seq!["account_amount_spacing"@]) + opt_diag_piece(
            m8,
            seq!["number_currency_spacing"@],
        ));
    }
    (prefix_width, num_width, currency_column, account_amount_spacing, number_currency_spacing)
}

/// The configuration that resolution settles on, as a function of the raw
/// map and the (already defaulted) global layer.
pub open spec fn spec_resolved(
    m: Seq<(Seq<char>, ConfigValueView)>,
    lwd: u32,
    iwd: u8,
    nld: Seq<char>,
) -> Configuration {
    let ov = spec_opt_val(m, indent_override_names(), 0);
    let m1 = spec_opt_map(m, indent_override_names(), 0);
    let m2 = if ov is Some {
        m1
    } else {
        removed_map(m1, "indent_width"@)
    };
    let m3 = removed_map(m2, "line_width"@);
    let m4 = removed_map(m3, nl_key_name(m3));
    let m5 = spec_opt_map(m4, seq!["prefix_width"@], 0);
    let m6 = spec_opt_map(m5, seq!["num_width"@], 0);
    let m7 = spec_opt_map(m6, seq!["currency_column"@], 0);
    let m8 = spec_opt_map(m7, seq!["account_amount_spacing"@], 0);
    Configuration {
        line_width: spec_get_u32_val(m2, "line_width"@, lwd),
        indent_width: spec_indent_value(m, iwd),
        new_line_kind: spec_parse_nl(m3, nl_key_name(m3), nld),
        prefix_width: spec_opt_val(m4, seq!["prefix_width"@], 0),
        num_width: spec_opt_val(m5, seq!["num_width"@], 0),
        currency_column: spec_opt_val(m6, seq!["currency_column"@], 0),
        account_amount_spacing: spec_opt_val(m7, seq!["account_amount_spacing"@], 0),
        number_currency_spacing: spec_opt_val(m8, seq!["number_currency_spacing"@], 0),
    }
}

/// Resolves configuration from a collection of key value strings, merging in
/// the global defaults layer. Never fails: problems degrade to defaults and
/// are reported as diagnostics, and every unrecognized key is reported as an
/// unknown property.
#[verifier::rlimit(100)]
pub fn resolve_config(config: ConfigKeyMap, global_config: &GlobalConfiguration) -> (r:
    ResolveConfigurationResult<Configuration>)
    ensures
        ({
            let lwd = match global_config.line_width {
                Some(w) => w,
                None => DEFAULT_LINE_WIDTH,
            };
            let iwd = match global_config.indent_width {
                Some(w) => w,
                None => DEFAULT_INDENT_WIDTH,
            };
            let nld = match global_config.new_line_kind {
                Some(s) => s@,
                None => "lf"@,
            };
            let ov = spec_opt_val(config@, indent_override_names(), 0);
            let m1 = spec_opt_map(config@, indent_override_names(), 0);
            let m2 = if ov is Some {
                m1
            } else {
                removed_map(m1, "indent_width"@)
            };
            let m3 = removed_map(m2, "line_width"@);
            let m4 = removed_map(m3, nl_key_name(m3));
            let m5 = spec_opt_map(m4, seq!["prefix_width"@], 0);
            let m6 = spec_opt_map(m5, seq!["num_width"@], 0);
            let m7 = spec_opt_map(m6, seq!["currency_column"@], 0);
            let m8 = spec_opt_map(m7, seq!["account_amount_spacing"@], 0);
            let m9 = spec_opt_map(m8, seq!["number_currency_spacing"@], 0);
            let d_override = opt_diag_piece(config@, indent_override_names());
            let d_indent = match ov {
                Some(v) => if v > 255 {
                    seq![("format_indent_width"@, range_msg())]
                } else {
                    Seq::<(Seq<char>, Seq<char>)>::empty()
                },
                None => u8_diag_piece(m1, "indent_width"@),
            };
            let d_lw = u32_diag_piece(m2, "line_width"@);
            let d_nl = if spec_parse_nl_diag(m3, nl_key_name(m3), nld) {
                seq![(nl_key_name(m3), nl_msg(spec_get_string(m3, nl_key_name(m3), nld)))]
            } else {
                Seq::<(Seq<char>, Seq<char>)>::empty()
            };
            &&& r.config == spec_resolved(config@, lwd, iwd, nld)
            &&& diag_views(r.diagnostics@) == d_override + d_indent + d_lw + d_nl
                + opt_diag_piece(m4, seq!["prefix_width"@]) + opt_diag_piece(
                m5,
                seq!["num_width"@],
            ) + opt_diag_piece(m6, seq!["currency_column"@]) + opt_diag_piece(
                m7,
                seq!["account_amount_spacing"@],
            ) + opt_diag_piece(m8, seq!["number_currency_spacing"@]) + unknown_diag_views(m9)
        }),
{
    let mut diagnostics: Vec<ConfigurationDiagnostic> = Vec::new();
    let mut config = config;

    let line_width_default = match global_config.line_width {
        Some(w) => w,
        None => DEFAULT_LINE_WIDTH,
    };
    let indent_width_default = match global_config.indent_width {
        Some(w) => w,
        None => DEFAULT_INDENT_WIDTH,
    };
    let new_line_kind_default = match &global_config.new_line_kind {
        Some(s) => s.clone(),
        None => String::from_str("lf"),
    };

    let ghost m0 = config@;
    let widths = resolve_widths(
        &mut config,
        line_width_default,
        indent_width_default,
        &mut diagnostics,
    );
    let line_width = widths.0;
    let indent_width_value = widths.1;
    let ghost dv3 = diag_views(diagnostics@);

    let new_line_kind = parse_new_line_kind(
        &mut config,
        new_line_kind_default.as_str(),
        &mut diagnostics,
    );
    let ghost dv4 = diag_views(diagnostics@);

    let opts = resolve_optionals(&mut config, &mut diagnostics);
    let ghost dv9 = diag_views(diagnostics@);

    let resolved_config = Configuration {
        line_width,
        indent_width: indent_width_value,
        new_line_kind,
        prefix_width: opts.0,
        num_width: opts.1,
        currency_column: opts.2,
        account_amount_spacing: opts.3,
        number_currency_spacing: opts.4,
    };

    let mut unknown = get_unknown_property_diagnostics(config);
    let ghost unknown_v = unknown@;
    diagnostics.append(&mut unknown);
    proof {
        let nld = match &global_config.new_line_kind {
            Some(s) => s@,
            None => "lf"@,
        };
        let ov = spec_opt_val(m0, indent_override_names(), 0);
        let m1 = spec_opt_map(m0, indent_override_names(), 0);
        let m2 = if ov is Some {
            m1
        } else {
            removed_map(m1, "indent_width"@)
        };
        let m3 = removed_map(m2, "line_width"@);
        let m4 = removed_map(m3, nl_key_name(m3));
        let m5 = spec_opt_map(m4, seq!["prefix_width"@], 0);
        let m6 = spec_opt_map(m5, seq!["num_width"@], 0);
        let m7 = spec_opt_map(m6, seq!["currency_column"@], 0);
        let m8 = spec_opt_map(m7, seq!["account_amount_spacing"@], 0);
        let d_override = opt_diag_piece(m0, indent_override_names());
        let d_indent = match ov {
            Some(v) => if v > 255 {
                seq![("format_indent_width"@, range_msg())]
            } else {
                Seq::<(Seq<char>, Seq<char>)>::empty()
            },
            None => u8_diag_piece(m1, "indent_width"@),
        };
        let d_lw = u32_diag_piece(m2, "line_width"@);
        let d_nl = if spec_parse_nl_diag(m3, nl_key_name(m3), nld) {
            seq![(nl_key_name(m3), nl_msg(spec_get_string(m3, nl_key_name(m3), nld)))]
        } else {
            Seq::<(Seq<char>, Seq<char>)>::empty()
        };
        assert(dv3 =~= d_override + d_indent + d_lw);
        assert(dv4 =~= d_override + d_indent + d_lw + d_nl);
        assert(diag_views(diagnostics@) =~= dv9 + diag_views(unknown_v));
        assert(diag_views(diagnostics@) =~= d_override + d_indent + d_lw + d_nl + opt_diag_piece(
            m4,
            seq!["prefix_width"@],
        ) + opt_diag_piece(m5, seq!["num_width"@]) + opt_diag_piece(m6, seq!["currency_column"@])
            + opt_diag_piece(m7, seq!["account_amount_spacing"@]) + opt_diag_piece(
            m8,
            seq!["number_currency_spacing"@],
        ) + diag_views(unknown_v));
    }

    ResolveConfigurationResult { config: resolved_config, diagnostics }
}


/// Resolves just the global-defaults layer from a raw map; the map is left
/// empty.
pub fn resolve_global_config(config: &mut ConfigKeyMap) -> (r: ResolveConfigurationResult<
    GlobalConfiguration,
>)
    ensures
        final(config)@ == Seq::<(Seq<char>, ConfigValueView)>::empty(),
        ({
            let m1 = removed_map(old(config)@, "line_width"@);
            let m2 = removed_map(m1, "indent_width"@);
            let m3 = removed_map(m2, nl_key_name(m2));
            &&& r.config.line_width == Some(
                spec_get_u32_val(old(config)@, "line_width"@, DEFAULT_LINE_WIDTH),
            )
            &&& r.config.indent_width == Some(
                spec_get_u8_val(m1, "indent_width"@, DEFAULT_INDENT_WIDTH),
            )
            &&& r.config.new_line_kind is Some
            &&& r.config.new_line_kind->0@ == spec_get_string(m2, nl_key_name(m2), "lf"@)
            &&& diag_views(r.diagnostics@) == u32_diag_piece(old(config)@, "line_width"@)
                + u8_diag_piece(m1, "indent_width"@) + unknown_diag_views(m3)
        }),
{
    let mut diagnostics: Vec<ConfigurationDiagnostic> = Vec::new();

    let line_width = get_u32(config, "line_width", DEFAULT_LINE_WIDTH, &mut diagnostics);
    let ghost dv1 = diag_views(diagnostics@);
    let indent_width = get_u8(config, "indent_width", DEFAULT_INDENT_WIDTH, &mut diagnostics);
    let ghost dv2 = diag_views(diagnostics@);
    let nl_name: &str = if config.contains_key("new_line_kind") {
        "new_line_kind"
    } else {
        "new_line"
    };
    let new_line_kind = get_string(config, nl_name, "lf");

    let resolved_config = GlobalConfiguration {
        line_width: Some(line_width),
        indent_width: Some(indent_width),
        new_line_kind: Some(new_line_kind),
    };

    let mut rest = ConfigKeyMap::new();
    core::mem::swap(config, &mut rest);
    let mut unknown = get_unknown_property_diagnostics(rest);
    let ghost unknown_v = unknown@;
    diagnostics.append(&mut unknown);
    proof {
        assert(diag_views(diagnostics@) =~= dv2 + diag_views(unknown_v));
    }

    ResolveConfigurationResult { config: resolved_config, diagnostics }
}

} // verus!
