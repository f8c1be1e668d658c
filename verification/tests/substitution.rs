//! Placeholder substitution and field binding on concrete values.

use metatron::binder::bind_field;
use metatron::binder::field_name_of;
use metatron::data::Json;
use metatron::params::ParamMap;
use metatron::subst::substitute;

fn params(entries: Vec<(&str, &str)>) -> ParamMap {
    ParamMap {
        entries: entries.iter().map(|(k, v)| (k.to_string(), v.to_string())).collect(),
    }
}

#[test]
fn empty_parameter_map_leaves_tokens_literal() {
    let p = ParamMap::new();
    assert_eq!(substitute("$P{year}", &p), "$P{year}");
    assert_eq!(substitute("text", &p), "text");
}

#[test]
fn text_without_tokens_is_unchanged() {
    let p = params(vec![("year", "2024")]);
    assert_eq!(substitute("plain text, no placeholders", &p), "plain text, no placeholders");
    assert_eq!(substitute("", &p), "");
    assert_eq!(substitute("almost $P{ but no close", &p), "almost $P{ but no close");
}

#[test]
fn unresolved_token_is_left_literal() {
    let p = params(vec![("year", "2024")]);
    assert_eq!(substitute("$P{month}", &p), "$P{month}");
    assert_eq!(substitute("start $P{month} end", &p), "start $P{month} end");
}

#[test]
fn resolved_token_becomes_its_binding() {
    let p = params(vec![("year", "2024"), ("who", "Acme")]);
    assert_eq!(substitute("$P{year}", &p), "2024");
    assert_eq!(substitute("for $P{who}, $P{year}!", &p), "for Acme, 2024!");
}

#[test]
fn substitution_is_not_recursive() {
    let p = params(vec![("a", "$P{b}"), ("b", "deep")]);
    assert_eq!(substitute("$P{a}", &p), "$P{b}");
}

#[test]
fn scan_runs_left_to_right() {
    let p = params(vec![("a", "1"), ("b", "2")]);
    assert_eq!(substitute("$P{a}$P{b}$P{a}", &p), "121");
}

#[test]
fn field_name_strips_prefix_and_suffix() {
    assert_eq!(field_name_of("$F(name)"), "name");
    assert_eq!(field_name_of("name"), "name");
    assert_eq!(field_name_of("$F($F(x))"), "x");
    assert_eq!(field_name_of("$F(f(x))"), "f(x");
}

#[test]
fn binding_yields_cells_for_scalars_only() {
    let record = Json::Obj(vec![
        ("name".to_string(), Json::Str("Alice".to_string())),
        ("amount".to_string(), Json::Num { text: "10".to_string(), int_val: Some(10) }),
        ("tags".to_string(), Json::Arr(vec![])),
        ("ok".to_string(), Json::Bool(true)),
        ("note".to_string(), Json::Null),
    ]);
    assert_eq!(bind_field("$F(name)", &record), Some("Alice".to_string()));
    assert_eq!(bind_field("$F(amount)", &record), Some("10".to_string()));
    assert_eq!(bind_field("$F(tags)", &record), None);
    assert_eq!(bind_field("$F(ok)", &record), None);
    assert_eq!(bind_field("$F(note)", &record), None);
    assert_eq!(bind_field("$F(absent)", &record), None);
    assert_eq!(bind_field("name", &record), Some("Alice".to_string()));
}
