//! Errors of `expect.toml` files: keys, types of values, and where they stand.

use std::collections::BTreeMap;
use std::fmt;

use beamtalk_uat::scenario::{discover, parse_expect_text, Found, Surface};
use serde::de::{EnumAccess, Error, VariantAccess, Visitor};
use serde::{Deserialize, Deserializer};

fn error(text: &str) -> String {
    parse_expect_text(text, "d", "/x").unwrap_err()
}

fn value(text: &str) -> toml::Value {
    toml::from_str(text).unwrap()
}

#[test]
fn text_that_is_not_toml() {
    let inner = toml::from_str::<toml::Value>("surface = ").unwrap_err().to_string();
    assert_eq!(error("surface = "), format!("scenario `d`: invalid TOML: {inner}"));
    let inner = toml::from_str::<toml::Value>("a = 1\na = 2\n").unwrap_err().to_string();
    assert_eq!(error("a = 1\na = 2\n"), format!("scenario `d`: invalid TOML: {inner}"));
}

#[test]
fn a_missing_surface() {
    assert_eq!(error("args = \"lint\"\n"), "scenario `d`: missing field `surface`\n");
    assert_eq!(error(""), "scenario `d`: missing field `surface`\n");
    assert_eq!(
        error("[[scenario]]\nargs = \"lint\"\n"),
        "scenario `d`: missing field `surface`\nin `scenario`\n"
    );
}

#[test]
fn an_empty_scenario_array() {
    assert_eq!(error("scenario = []\n"), "scenario `d`: `[[scenario]]` array is empty");
}

#[test]
fn shapes_of_arrays() {
    assert_eq!(error("scenario = 1\n"), "scenario `d`: `scenario` must be an array");
    assert_eq!(error("scenario = [1]\n"), "scenario `d`: each `[[scenario]]` must be a table");
    assert_eq!(error("surface = \"mcp\"\nstep = 1\n"), "scenario `d`: `step` must be an array");
    assert_eq!(
        error("surface = \"mcp\"\nstep = [1]\n"),
        "scenario `d`: each `[[step]]` must be a table"
    );
}

#[test]
fn unknown_keys() {
    assert_eq!(error("bogus = 1\n"), "scenario `d`: unknown key `bogus`");
    assert_eq!(
        error("surface = \"mcp\"\n[[step]]\nsurface = \"mcp\"\n"),
        "scenario `d`: unknown step key `surface`"
    );
    assert_eq!(
        error("surface = \"cli\"\n[[scenario]]\nsurface = \"cli\"\n"),
        "scenario `d`: unknown top-level key `surface` (a `[[scenario]]` file may only contain the `scenario` array)"
    );
}

/// The message of decoding the value of `key` as `T`, without its last line
/// breaks.
fn message<T: for<'a> Deserialize<'a> + fmt::Debug>(text: &str) -> String {
    value(text).try_into::<BTreeMap<String, T>>().unwrap_err().to_string()
}

#[test]
fn integers_out_of_range() {
    for n in ["2147483648", "-2147483649", "9223372036854775807"] {
        let text = format!("exit_code = {n}\n");
        // The inline fields of a scenario lose their place in the message.
        let real = message::<i32>(&text).replace("in `exit_code`\n", "");
        assert_eq!(error(&format!("surface = \"cli\"\n{text}")), format!("scenario `d`: {real}"));
    }
    for n in ["-1", "4294967296"] {
        let text = format!("line = {n}\n");
        let real = message::<u32>(&text).replace("in `line`\n", "");
        assert_eq!(error(&format!("surface = \"lsp\"\n{text}")), format!("scenario `d`: {real}"));
    }
}

#[test]
fn integers_at_the_ends_of_their_range() {
    let s = parse_expect_text(
        "surface = \"cli\"\nargs = \"x\"\nexit_code = -2147483648\n",
        "d",
        "/x",
    )
    .unwrap();
    assert_eq!(s[0].steps[0].exit_code, Some(i32::MIN));
    let s = parse_expect_text(
        "surface = \"lsp\"\nmethod = \"textDocument/hover\"\nsource = \"s\"\nline = 4294967295\ncharacter = 0\nresponse_contains = \"\"\n",
        "d",
        "/x",
    )
    .unwrap();
    assert_eq!(s[0].steps[0].line, Some(u32::MAX));
    assert_eq!(s[0].steps[0].character, Some(0));
}

#[test]
fn values_of_the_wrong_type() {
    let wrong = ["1", "-7", "1.5", "2.0", "1e300", "inf", "-inf", "nan", "-nan", "true", "false", "[1]", "[]", "{a = 1}"];
    for v in wrong {
        let real = message::<String>(&format!("args = {v}\n"));
        let inline = real.replace("in `args`\n", "");
        assert_eq!(
            error(&format!("surface = \"cli\"\nargs = {v}\n")),
            format!("scenario `d`: {inline}"),
            "{v}"
        );
        let named = message::<String>(&format!("name = {v}\n"));
        assert_eq!(
            error(&format!("surface = \"cli\"\nname = {v}\n")),
            format!("scenario `d`: {named}"),
            "{v}"
        );
    }
    for v in ["\"zwei\"", "\"a\\nb\"", "1.5", "true", "[]", "{}"] {
        let real = message::<i32>(&format!("exit_code = {v}\n")).replace("in `exit_code`\n", "");
        assert_eq!(
            error(&format!("surface = \"cli\"\nexit_code = {v}\n")),
            format!("scenario `d`: {real}"),
            "{v}"
        );
    }
}

#[test]
fn places_of_nested_values() {
    let steps = "[[step]]\ntool = \"a\"\n[[step]]\ntool = 1\n";
    let real = value(steps)
        .try_into::<BTreeMap<String, Vec<BTreeMap<String, String>>>>()
        .unwrap_err()
        .to_string();
    assert_eq!(error(&format!("surface = \"mcp\"\n{steps}")), format!("scenario `d`: {real}"));

    let scenarios = "[[scenario]]\nname = \"a\"\n[[scenario]]\nname = 1\n";
    let real = value(scenarios)
        .try_into::<BTreeMap<String, Vec<BTreeMap<String, String>>>>()
        .unwrap_err()
        .to_string();
    assert_eq!(
        error("[[scenario]]\nname = \"a\"\nsurface = \"bunit\"\n[[scenario]]\nsurface = \"bunit\"\nname = 1\n"),
        format!("scenario `d`: {real}")
    );
}

#[test]
fn a_date_counts_as_a_string() {
    let s = parse_expect_text("surface = \"cli\"\nargs = 1979-05-27\n", "d", "/x").unwrap();
    assert_eq!(s[0].steps[0].args.as_deref(), Some("1979-05-27"));
    let real = value("args = 1979-05-27\n").try_into::<BTreeMap<String, String>>().unwrap();
    assert_eq!(real["args"], "1979-05-27");
}

const SURFACES: &[&str] = &["bunit", "run", "cli", "lsp", "mcp"];

/// An enum of unit variants, decoded the way `serde` decodes one.
#[derive(Debug)]
struct Unit(String);

struct Name(String);

struct NameVisitor;

impl<'de> Visitor<'de> for NameVisitor {
    type Value = Name;

    fn expecting(&self, f: &mut fmt::Formatter<'_>) -> fmt::Result {
        f.write_str("variant identifier")
    }

    fn visit_str<E: Error>(self, v: &str) -> Result<Name, E> {
        if SURFACES.contains(&v) {
            Ok(Name(v.to_string()))
        } else {
            Err(E::unknown_variant(v, SURFACES))
        }
    }
}

impl<'de> Deserialize<'de> for Name {
    fn deserialize<D: Deserializer<'de>>(d: D) -> Result<Self, D::Error> {
        d.deserialize_identifier(NameVisitor)
    }
}

struct UnitVisitor;

impl<'de> Visitor<'de> for UnitVisitor {
    type Value = Unit;

    fn expecting(&self, f: &mut fmt::Formatter<'_>) -> fmt::Result {
        f.write_str("enum Surface")
    }

    fn visit_enum<A: EnumAccess<'de>>(self, data: A) -> Result<Unit, A::Error> {
        let (name, variant) = data.variant::<Name>()?;
        variant.unit_variant()?;
        Ok(Unit(name.0))
    }
}

impl<'de> Deserialize<'de> for Unit {
    fn deserialize<D: Deserializer<'de>>(d: D) -> Result<Self, D::Error> {
        d.deserialize_enum("Surface", SURFACES, UnitVisitor)
    }
}

#[test]
fn surfaces_that_do_not_exist() {
    let wrong = [
        "\"Cli\"",
        "\"repl\"",
        "\"\"",
        "1",
        "1.5",
        "true",
        "[]",
        "[\"cli\"]",
        "{}",
        "{ repl = {} }",
        "{ cli = {}, run = {} }",
        "{ cli = 1 }",
        "{ cli = 1.5 }",
        "{ cli = true }",
        "{ cli = \"x\" }",
        "{ cli = [1] }",
        "{ cli = { a = 1 } }",
        "{ cli = 1979-05-27 }",
        "1979-05-27",
    ];
    for v in wrong {
        let text = format!("surface = {v}\n");
        let real = message::<Unit>(&text);
        assert_eq!(error(&text), format!("scenario `d`: {real}"), "{v}");
    }
}

#[test]
fn surfaces_that_exist() {
    for (v, surface) in [
        ("\"bunit\"", Surface::Bunit),
        ("{ bunit = {} }", Surface::Bunit),
        ("{ bunit = [] }", Surface::Bunit),
    ] {
        let text = format!("surface = {v}\n");
        assert_eq!(value(&text).try_into::<BTreeMap<String, Unit>>().unwrap()["surface"].0, "bunit");
        assert_eq!(parse_expect_text(&text, "d", "/x").unwrap()[0].surface, surface);
    }
}

#[test]
fn display_names() {
    let flat = parse_expect_text("surface = \"bunit\"\n", "d", "/x").unwrap();
    assert_eq!(flat[0].name, "d");
    let named = parse_expect_text("surface = \"bunit\"\nname = \"n\"\n", "d", "/x").unwrap();
    assert_eq!(named[0].name, "d/n");
    let many = parse_expect_text(
        "[[scenario]]\nsurface = \"bunit\"\n[[scenario]]\nname = \"x\"\nsurface = \"bunit\"\n",
        "d",
        "/x/d",
    )
    .unwrap();
    assert_eq!(many[0].name, "d/0");
    assert_eq!(many[1].name, "d/x");
    assert_eq!(many[1].dir_name, "d");
    assert_eq!(many[1].project_dir, "/x/d");
}

#[test]
fn errors_of_steps_name_their_place() {
    assert_eq!(
        error("surface = \"mcp\"\n[[step]]\ntool = \"a\"\n[[step]]\ncode = \"b\"\n"),
        "scenario `d` step 2: `mcp` requires a `tool` key"
    );
    assert_eq!(
        error("surface = \"cli\"\n"),
        "scenario `d` step 1: `cli` requires an `args` key"
    );
    assert_eq!(
        error("surface = \"bunit\"\nline = 1\ntool = \"t\"\nargs = \"a\"\n"),
        "scenario `d` step 1: `bunit` surface does not use field(s): args, line, tool"
    );
    assert_eq!(
        error("surface = \"lsp\"\nmethod = \"textDocument/definition\"\nsource = \"s\"\nresponse_contains = \"x\"\nline = 1\n"),
        "scenario `d` step 1: lsp method `textDocument/definition` requires `line` and `character`"
    );
    assert_eq!(
        error("surface = \"lsp\"\nmethod = \"x\"\nsource = \"s\"\n"),
        "scenario `d` step 1: `lsp` requires a `response_contains` key"
    );
    assert_eq!(
        error("surface = \"mcp\"\ntool = \"x\"\n"),
        "scenario `d` step 1: `mcp` requires a `response_contains` key"
    );
}

#[test]
fn errors_of_sequences() {
    assert_eq!(
        error("surface = \"run\"\n[[step]]\nentrypoint = \"A b\"\n"),
        "scenario `d`: `[[step]]` sequences require a session-backed surface (`lsp` or `mcp`); `Run` spawns a fresh process per step with no shared state"
    );
    assert_eq!(
        error("surface = \"mcp\"\ntool = \"t\"\n[[step]]\ntool = \"u\"\n"),
        "scenario `d`: set either top-level step fields or `[[step]]`, not both"
    );
}

fn fixture(dir: &str, text: &str) -> Found {
    Found::Fixture {
        dir_name: Some(dir.to_string()),
        project_dir: format!("/projects/{dir}"),
        text: text.to_string(),
    }
}

#[test]
fn discovery_reports_what_it_cannot_read() {
    assert_eq!(
        discover("/projects", Err("gone".to_string())).unwrap_err(),
        "read_dir /projects: gone"
    );
    let lost = vec![Found::Lost { error: "io".to_string() }];
    assert_eq!(discover("/projects", Ok(lost)).unwrap_err(), "read_dir entry: io");
    let unreadable = vec![
        fixture("a", "surface = \"bunit\"\n"),
        Found::Unreadable { path: "/projects/b/expect.toml".to_string(), error: "denied".to_string() },
    ];
    assert_eq!(
        discover("/projects", Ok(unreadable)).unwrap_err(),
        "read /projects/b/expect.toml: denied"
    );
    let broken = vec![fixture("a", "surface = \"bunit\"\n"), fixture("b", "bogus = 1\n")];
    assert_eq!(discover("/projects", Ok(broken)).unwrap_err(), "scenario `b`: unknown key `bogus`");
}

#[test]
fn discovery_refuses_two_scenarios_of_one_name() {
    let twice = "[[scenario]]\nname = \"x\"\nsurface = \"bunit\"\n[[scenario]]\nname = \"x\"\nsurface = \"bunit\"\n";
    let listing = vec![fixture("z", twice), fixture("b", twice), fixture("a", "surface = \"bunit\"\n")];
    assert_eq!(
        discover("/projects", Ok(listing)).unwrap_err(),
        "duplicate scenario name `b/x`"
    );
}

#[test]
fn discovery_does_not_depend_on_the_order_of_the_listing() {
    let names = ["b", "a", "é", "B", "a-b", "a/b", "Z", "10", "9"];
    let text = "surface = \"bunit\"\n";
    let forward: Vec<Found> = names.iter().map(|n| fixture(n, text)).collect();
    let backward: Vec<Found> = names.iter().rev().map(|n| fixture(n, text)).collect();
    let one: Vec<String> =
        discover("/p", Ok(forward)).unwrap().into_iter().map(|s| s.name).collect();
    let two: Vec<String> =
        discover("/p", Ok(backward)).unwrap().into_iter().map(|s| s.name).collect();
    assert_eq!(one, two);
    let mut sorted: Vec<String> = names.iter().map(|n| n.to_string()).collect();
    sorted.sort();
    assert_eq!(one, sorted);
}

#[test]
fn a_directory_whose_name_is_no_text() {
    let listing = vec![Found::Fixture {
        dir_name: None,
        project_dir: "/projects/?".to_string(),
        text: "surface = \"bunit\"\n".to_string(),
    }];
    let found = discover("/projects", Ok(listing)).unwrap();
    assert_eq!(found[0].name, "unknown");
    assert_eq!(found[0].dir_name, "unknown");
}
