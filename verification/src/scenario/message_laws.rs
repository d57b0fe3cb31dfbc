//! What is said of an `expect.toml` that is not accepted.

use vstd::prelude::*;

use crate::document::{toml_document, Tree};
use crate::scenario::decode::{
    action_errors, head_error, head_errors, raw_error, sequence_errors, shown, step_value_error, step_value_errors,
    string_error, surface_named, surface_of, surface_or_error, under, unexpected, value_error, RawModel,
};
use crate::scenario::decode_laws::{law_keys, law_lookup};
use crate::scenario::expect::{
    raw_errors, scenario_base, scenario_error, scenario_tables, scenarios_of, scenarios_of_text, step_errors, steps_of,
};
use crate::scenario::keys::{
    element_error, element_errors, key_error, lookup, scenario_key, scenario_shape_error, step_key, step_shape_error,
    step_shape_errors, top_level_errors, unknown_scenario_keys, unknown_step_keys, Rows,
};
use crate::scenario::model::{empty_step, ScenarioModel, StepModel, Surface};
use crate::scenario::validate::{needs_position, step_error, stray_fields};
use crate::text::{debug_text, decimal, lemma_first_error, occurs, occurs_at, signed_decimal};
use crate::text_laws::{law_first_error, lemma_occurs};

verus! {

/// What a step lacks is said: the first that its surface needs and that it does
/// not have.
pub proof fn law_what_is_missing(step: StepModel, multi: bool)
    ensures
        stray_fields(Surface::Run, step).len() == 0 ==> {
            let e = step_error(Surface::Run, step, multi);
            &&& step.entrypoint is None ==> e == Some("`run` requires an `entrypoint`"@)
            &&& step.entrypoint is Some && step.stdout is None && step.exit_code is None ==> e == Some(
                "`run` requires at least one of `stdout` or `exit_code`"@,
            )
        },
        stray_fields(Surface::Cli, step).len() == 0 && step.args is None ==> step_error(Surface::Cli, step, multi) == Some(
            "`cli` requires an `args` key"@,
        ),
        stray_fields(Surface::Lsp, step).len() == 0 ==> {
            let e = step_error(Surface::Lsp, step, multi);
            &&& step.lsp_method is None ==> e == Some("`lsp` requires a `method` key"@)
            &&& step.lsp_method is Some && step.source is None ==> e == Some("`lsp` requires a `source` key"@)
            &&& step.lsp_method is Some && step.source is Some && step.response_contains is None && !multi ==> e == Some(
                "`lsp` requires a `response_contains` key"@,
            )
            &&& step.source is Some && (multi || step.response_contains is Some) && (step.line is None || step.character is None)
                && (step.lsp_method matches Some(m) && needs_position(m)) ==> e == Some(
                "lsp method `"@ + step.lsp_method->0 + "` requires `line` and `character`"@,
            )
        },
        stray_fields(Surface::Mcp, step).len() == 0 ==> {
            let e = step_error(Surface::Mcp, step, multi);
            &&& step.tool is None ==> e == Some("`mcp` requires a `tool` key"@)
            &&& step.tool is Some && step.response_contains is None && !multi ==> e == Some(
                "`mcp` requires a `response_contains` key"@,
            )
            &&& step.tool is Some && (multi || step.response_contains is Some) && step.code is Some && step.arguments is Some
                ==> e == Some("`mcp`: use either `code` or `arguments`, not both"@)
        },
{
}

/// The first key that is not known is named: in a scenario, in a step, and beside
/// a `scenario` array.
pub proof fn law_unknown_key_is_named(t: Rows, dir: Seq<char>, i: int)
    requires
        0 <= i < t.len(),
    ensures
        !scenario_key(t[i].0) && (forall|j: int| 0 <= j < i ==> scenario_key((#[trigger] t[j]).0)) ==> scenario_shape_error(
            t,
            dir,
        ) == Some("scenario `"@ + dir + "`: "@ + ("unknown key `"@ + t[i].0 + "`"@)),
        !step_key(t[i].0) && (forall|j: int| 0 <= j < i ==> step_key((#[trigger] t[j]).0)) ==> step_shape_error(
            Tree::Table(t),
            dir,
        ) == Some("scenario `"@ + dir + "`: "@ + ("unknown step key `"@ + t[i].0 + "`"@)),
        lookup(t, "scenario"@) is Some && t[i].0 != "scenario"@ && (forall|j: int|
            0 <= j < i ==> (#[trigger] t[j]).0 == "scenario"@) ==> key_error(Tree::Table(t), dir) == Some(
            "scenario `"@ + dir + "`: "@ + ("unknown top-level key `"@ + t[i].0
                + "` (a `[[scenario]]` file may only contain the `scenario` array)"@),
        ),
{
    let n = t.len() as int;
    if !scenario_key(t[i].0) && (forall|j: int| 0 <= j < i ==> scenario_key((#[trigger] t[j]).0)) {
        let f = unknown_scenario_keys(t, dir);
        assert forall|j: int| 0 <= j < i implies (#[trigger] f(j)) is None by {
            assert(scenario_key(t[j].0));
        }
        law_first_error(n, 0, f, i);
    }
    if !step_key(t[i].0) && (forall|j: int| 0 <= j < i ==> step_key((#[trigger] t[j]).0)) {
        let f = unknown_step_keys(t, dir);
        assert forall|j: int| 0 <= j < i implies (#[trigger] f(j)) is None by {
            assert(step_key(t[j].0));
        }
        law_first_error(n, 0, f, i);
    }
    if t[i].0 != "scenario"@ && (forall|j: int| 0 <= j < i ==> (#[trigger] t[j]).0 == "scenario"@) {
        let f = top_level_errors(t, dir);
        assert forall|j: int| 0 <= j < i implies (#[trigger] f(j)) is None by {
            assert(t[j].0 == "scenario"@);
        }
        law_first_error(n, 0, f, i);
    }
}

/// What is no table, and no array, where one is to be, is said.
pub proof fn law_wrong_shape_is_said(doc: Tree, dir: Seq<char>)
    ensures
        doc !is Table ==> key_error(doc, dir) == Some("scenario `"@ + dir + "`: "@ + "expect.toml must be a table"@),
        doc !is Table ==> step_shape_error(doc, dir) == Some(
            "scenario `"@ + dir + "`: "@ + "each `[[step]]` must be a table"@,
        ),
{
}

/// A value of the wrong type is said to be what it is, and what was expected.
pub proof fn law_wrong_type_is_said(n: i64, s: Seq<char>, a: Seq<Tree>, t: Rows)
    ensures
        string_error(Tree::Int(n)) == Some("invalid type: integer `"@ + signed_decimal(n as int) + "`, expected a string"@),
        string_error(Tree::Bool(true)) == Some("invalid type: boolean `true`, expected a string"@),
        string_error(Tree::Bool(false)) == Some("invalid type: boolean `false`, expected a string"@),
        string_error(Tree::Array(a)) == Some("invalid type: sequence, expected a string"@),
        string_error(Tree::Table(t)) == Some("invalid type: map, expected a string"@),
        value_error("exit_code"@, Tree::Str(s)) == Some("invalid type: string "@ + debug_text(s) + ", expected i32"@),
        value_error("line"@, Tree::Str(s)) == Some("invalid type: string "@ + debug_text(s) + ", expected u32"@),
        n > 0x7fff_ffff ==> value_error("exit_code"@, Tree::Int(n)) == Some(
            "invalid value: integer `"@ + signed_decimal(n as int) + "`, expected i32"@,
        ),
        n < 0 ==> value_error("line"@, Tree::Int(n)) == Some(
            "invalid value: integer `"@ + signed_decimal(n as int) + "`, expected u32"@,
        ),
{
    reveal_strlit("invalid type: ");
    reveal_strlit("invalid value: ");
    reveal_strlit("integer `");
    reveal_strlit("`");
    reveal_strlit(", expected a string");
    reveal_strlit("invalid type: integer `");
    reveal_strlit("invalid value: integer `");
    reveal_strlit("`, expected a string");
    reveal_strlit("boolean `true`");
    reveal_strlit("boolean `false`");
    reveal_strlit("sequence");
    reveal_strlit("map");
    reveal_strlit("string ");
    reveal_strlit("invalid type: boolean `true`, expected a string");
    reveal_strlit("invalid type: boolean `false`, expected a string");
    reveal_strlit("invalid type: sequence, expected a string");
    reveal_strlit("invalid type: map, expected a string");
    reveal_strlit("invalid type: string ");
    reveal_strlit(", expected ");
    reveal_strlit(", expected i32");
    reveal_strlit(", expected u32");
    reveal_strlit("`, expected i32");
    reveal_strlit("`, expected u32");
    reveal_strlit("i32");
    reveal_strlit("u32");
    let d = signed_decimal(n as int);
    assert(string_error(Tree::Int(n))->0 =~= "invalid type: integer `"@ + d + "`, expected a string"@);
    assert(string_error(Tree::Bool(true))->0 =~= "invalid type: boolean `true`, expected a string"@);
    assert(string_error(Tree::Bool(false))->0 =~= "invalid type: boolean `false`, expected a string"@);
    assert(string_error(Tree::Array(a))->0 =~= "invalid type: sequence, expected a string"@);
    assert(string_error(Tree::Table(t))->0 =~= "invalid type: map, expected a string"@);
    lemma_number_messages(n, s);
}

/// The messages of the keys of numbers.
proof fn lemma_number_messages(n: i64, s: Seq<char>)
    ensures
        value_error("exit_code"@, Tree::Str(s)) == Some("invalid type: string "@ + debug_text(s) + ", expected i32"@),
        value_error("line"@, Tree::Str(s)) == Some("invalid type: string "@ + debug_text(s) + ", expected u32"@),
        n > 0x7fff_ffff ==> value_error("exit_code"@, Tree::Int(n)) == Some(
            "invalid value: integer `"@ + signed_decimal(n as int) + "`, expected i32"@,
        ),
        n < 0 ==> value_error("line"@, Tree::Int(n)) == Some(
            "invalid value: integer `"@ + signed_decimal(n as int) + "`, expected u32"@,
        ),
{
    reveal_strlit("invalid type: ");
    reveal_strlit("invalid value: ");
    reveal_strlit("integer `");
    reveal_strlit("`");
    reveal_strlit("invalid value: integer `");
    reveal_strlit("string ");
    reveal_strlit("invalid type: string ");
    reveal_strlit(", expected ");
    reveal_strlit(", expected i32");
    reveal_strlit(", expected u32");
    reveal_strlit("`, expected i32");
    reveal_strlit("`, expected u32");
    reveal_strlit("i32");
    reveal_strlit("u32");
    reveal_strlit("exit_code");
    reveal_strlit("line");
    assert("exit_code"@.len() == 9 && "line"@.len() == 4);
    law_keys("exit_code"@);
    law_keys("line"@);
    let names = seq![
        "entrypoint"@,
        "args"@,
        "setup"@,
        "cwd"@,
        "stdout"@,
        "stdout_contains"@,
        "stderr_contains"@,
        "exit_code"@,
        "method"@,
        "source"@,
        "line"@,
        "character"@,
        "response_contains"@,
        "tool"@,
        "code"@,
        "arguments"@,
    ];
    assert(names[7] == "exit_code"@ && names[10] == "line"@);
    let d = signed_decimal(n as int);
    let q = debug_text(s);
    assert(value_error("exit_code"@, Tree::Str(s))->0 =~= "invalid type: string "@ + q + ", expected i32"@);
    assert(value_error("line"@, Tree::Str(s))->0 =~= "invalid type: string "@ + q + ", expected u32"@);
    if n > 0x7fff_ffff {
        assert(value_error("exit_code"@, Tree::Int(n))->0 =~= "invalid value: integer `"@ + d + "`, expected i32"@);
    }
    if n < 0 {
        assert(value_error("line"@, Tree::Int(n))->0 =~= "invalid value: integer `"@ + d + "`, expected u32"@);
    }
}

/// A name that is no surface is named, with those that are.
pub proof fn law_unknown_surface_is_said(name: Seq<char>)
    requires
        surface_named(name) is None,
    ensures
        surface_or_error(name) == Err::<Surface, Seq<char>>(
            "unknown variant `"@ + name + "`, expected one of `bunit`, `run`, `cli`, `lsp`, `mcp`"@,
        ),
{
}

/// The first step that is not in order is said to be so, by its number; and so
/// are inline fields beside a sequence, and a sequence on a surface that keeps no
/// session.
pub proof fn law_bad_step_is_said(raw: RawModel, display: Seq<char>, k: int)
    ensures
        raw.step.len() > 0 && raw.action != empty_step() ==> scenario_error(raw, display) == Some(
            "scenario `"@ + display + "`: set either top-level step fields or `[[step]]`, not both"@,
        ),
        raw.step.len() > 0 && raw.action == empty_step() ==> {
            let front = "scenario `"@ + display
                + "`: `[[step]]` sequences require a session-backed surface (`lsp` or `mcp`); `"@;
            let back = "` spawns a fresh process per step with no shared state"@;
            &&& raw.surface is Bunit ==> scenario_error(raw, display) == Some(front + "Bunit"@ + back)
            &&& raw.surface is Run ==> scenario_error(raw, display) == Some(front + "Run"@ + back)
            &&& raw.surface is Cli ==> scenario_error(raw, display) == Some(front + "Cli"@ + back)
        },
        raw.step.len() == 0 && step_error(raw.surface, raw.action, false) is Some ==> scenario_error(raw, display) == Some(
            "scenario `"@ + display + "` step "@ + decimal(1) + ": "@ + step_error(raw.surface, raw.action, false)->0,
        ),
        raw.step.len() > 0 && raw.action == empty_step() && (raw.surface is Lsp || raw.surface is Mcp) && 0 <= k
            < raw.step.len() && step_error(raw.surface, raw.step[k], raw.step.len() > 1) is Some && (forall|j: int|
            0 <= j < k ==> step_error(raw.surface, #[trigger] raw.step[j], raw.step.len() > 1) is None)
            ==> scenario_error(raw, display) == Some(
            "scenario `"@ + display + "` step "@ + decimal((k + 1) as nat) + ": "@ + step_error(
                raw.surface,
                raw.step[k],
                raw.step.len() > 1,
            )->0,
        ),
{
    let steps = steps_of(raw);
    let f = step_errors(raw.surface, steps, display);
    let n = steps.len() as int;
    if raw.step.len() == 0 && step_error(raw.surface, raw.action, false) is Some {
        assert(steps[0] == raw.action);
        assert(f(0) is Some);
        law_first_error(n, 0, f, 0);
    }
    if raw.step.len() > 0 && raw.action == empty_step() && (raw.surface is Lsp || raw.surface is Mcp) && 0 <= k
        < raw.step.len() && step_error(raw.surface, raw.step[k], raw.step.len() > 1) is Some && (forall|j: int|
        0 <= j < k ==> step_error(raw.surface, #[trigger] raw.step[j], raw.step.len() > 1) is None) {
        assert forall|j: int| 0 <= j < k implies (#[trigger] f(j)) is None by {
            assert(step_error(raw.surface, raw.step[j], raw.step.len() > 1) is None);
        }
        assert(f(k) is Some);
        law_first_error(n, 0, f, k);
    }
}

/// Where an error stands in a document is said behind it.
pub proof fn law_place_is_said(message: Seq<char>, base: Seq<char>, key: Seq<char>)
    ensures
        shown(message, Seq::empty()) == message + "\n"@,
        base.len() > 0 ==> shown(message, base) == message + "\nin `"@ + base + "`\n"@,
        under(Seq::empty(), key) == key,
        base.len() > 0 ==> under(base, key) == base + "."@ + key,
{
}

/// What was not expected is named by what it is, and by its value where it has
/// one. A finite float has a point.
pub proof fn law_unexpected_is_named(n: i64, s: Seq<char>, a: Seq<Tree>, t: Rows)
    ensures
        unexpected(Tree::Str(s)) == "string "@ + debug_text(s),
        unexpected(Tree::Datetime(s)) == "string "@ + debug_text(s),
        unexpected(Tree::Int(n)) == "integer `"@ + signed_decimal(n as int) + "`"@,
        unexpected(Tree::Bool(true)) == "boolean `true`"@,
        unexpected(Tree::Bool(false)) == "boolean `false`"@,
        unexpected(Tree::Array(a)) == "sequence"@,
        unexpected(Tree::Table(t)) == "map"@,
        s.contains('.') || s == "inf"@ || s == "-inf"@ || s == "NaN"@ ==> unexpected(Tree::Float(s))
            == "floating point `"@ + s + "`"@,
        !s.contains('.') && s != "inf"@ && s != "-inf"@ && s != "NaN"@ ==> unexpected(Tree::Float(s))
            == "floating point `"@ + s + ".0`"@,
{
    reveal_strlit(".");
    reveal_strlit(".0");
    reveal_strlit("`");
    reveal_strlit(".0`");
    if s.contains('.') {
        let i = choose|i: int| 0 <= i < s.len() && s[i] == '.';
        let (a, b) = (s.take(i), s.skip(i + 1));
        assert(s =~= a + "."@ + b);
        lemma_occurs(a, "."@, b);
    }
    if occurs(s, "."@) {
        let i = choose|i: int| occurs_at(s, "."@, i);
        assert(s.subrange(i, i + 1)[0] == s[i]);
    }
    assert("floating point `"@ + (s + ".0"@) + "`"@ =~= "floating point `"@ + s + ".0`"@);
}

/// What is no string where one is expected, and no number where one is, is said
/// to be what it is.
pub proof fn law_type_is_said(v: Tree)
    ensures
        v !is Str && v !is Datetime ==> string_error(v) == Some("invalid type: "@ + unexpected(v) + ", expected a string"@),
        v !is Int ==> value_error("exit_code"@, v) == Some("invalid type: "@ + unexpected(v) + ", expected "@ + "i32"@),
        v !is Int ==> value_error("line"@, v) == Some("invalid type: "@ + unexpected(v) + ", expected "@ + "u32"@),
        v !is Int ==> value_error("character"@, v) == Some("invalid type: "@ + unexpected(v) + ", expected "@ + "u32"@),
{
    reveal_strlit("exit_code");
    reveal_strlit("line");
    reveal_strlit("character");
    assert("exit_code"@[0] == 'e' && "line"@[0] == 'l' && "character"@[0] == 'c');
    law_keys("exit_code"@);
    law_keys("line"@);
    law_keys("character"@);
    let names = seq![
        "entrypoint"@,
        "args"@,
        "setup"@,
        "cwd"@,
        "stdout"@,
        "stdout_contains"@,
        "stderr_contains"@,
        "exit_code"@,
        "method"@,
        "source"@,
        "line"@,
        "character"@,
        "response_contains"@,
        "tool"@,
        "code"@,
        "arguments"@,
    ];
    assert(names[7] == "exit_code"@ && names[10] == "line"@ && names[11] == "character"@);
}

/// What is wrong with a surface that is not given by its name alone is said: that
/// it is no name, that it is not one key, that the key is no surface, or what
/// there is under the key.
pub proof fn law_bad_surface_is_said(v: Tree, t: Rows)
    ensures
        v !is Str && v !is Table ==> surface_of(v) == Err::<Surface, Seq<char>>(
            "invalid type: unit variant, expected string only"@,
        ),
        t.len() == 0 ==> surface_of(Tree::Table(t)) == Err::<Surface, Seq<char>>(
            "wanted exactly 1 element, found 0 elements"@,
        ),
        t.len() > 1 ==> surface_of(Tree::Table(t)) == Err::<Surface, Seq<char>>(
            "wanted exactly 1 element, more than 1 element"@,
        ),
        t.len() == 1 && surface_named(t[0].0) is None ==> surface_of(Tree::Table(t)) == Err::<Surface, Seq<char>>(
            "unknown variant `"@ + t[0].0 + "`, expected one of `bunit`, `run`, `cli`, `lsp`, `mcp`"@,
        ),
        t.len() == 1 && surface_named(t[0].0) is Some ==> {
            let r = surface_of(Tree::Table(t));
            match t[0].1 {
                Tree::Str(_) => r == Err::<Surface, Seq<char>>("expected table, found string"@),
                Tree::Int(_) => r == Err::<Surface, Seq<char>>("expected table, found integer"@),
                Tree::Float(_) => r == Err::<Surface, Seq<char>>("expected table, found float"@),
                Tree::Bool(_) => r == Err::<Surface, Seq<char>>("expected table, found boolean"@),
                Tree::Datetime(_) => r == Err::<Surface, Seq<char>>("expected table, found datetime"@),
                Tree::Array(a) => a.len() > 0 ==> r == Err::<Surface, Seq<char>>("expected empty array"@),
                Tree::Table(u) => u.len() > 0 ==> r == Err::<Surface, Seq<char>>("expected empty table"@),
            }
        },
{
}

/// Where the keys of a scenario's table are known, what is no array of tables
/// under `step` is said to be none, and the first step whose keys are not known
/// is.
pub proof fn law_bad_steps_are_said(t: Rows, dir: Seq<char>, k: int)
    requires
        forall|i: int| 0 <= i < t.len() ==> scenario_key((#[trigger] t[i]).0),
    ensures
        (lookup(t, "step"@) matches Some(v) && v !is Array) ==> scenario_shape_error(t, dir) == Some(
            "scenario `"@ + dir + "`: "@ + "`step` must be an array"@,
        ),
        (lookup(t, "step"@) matches Some(Tree::Array(a)) ==> {
            &&& 0 <= k < a.len() && step_shape_error(a[k], dir) is Some && (forall|j: int|
                0 <= j < k ==> step_shape_error(#[trigger] a[j], dir) is None) ==> scenario_shape_error(t, dir)
                == step_shape_error(a[k], dir)
        }),
{
    let f = unknown_scenario_keys(t, dir);
    lemma_first_error(t.len() as int, 0, f);
    assert forall|i: int| 0 <= i < t.len() implies (#[trigger] f(i)) is None by {
        assert(scenario_key(t[i].0));
    }
    if let Some(Tree::Array(a)) = lookup(t, "step"@) {
        if 0 <= k < a.len() && step_shape_error(a[k], dir) is Some && (forall|j: int|
            0 <= j < k ==> step_shape_error(#[trigger] a[j], dir) is None) {
            let g = step_shape_errors(a, dir);
            assert forall|j: int| 0 <= j < k implies (#[trigger] g(j)) is None by {
                assert(step_shape_error(a[j], dir) is None);
            }
            assert(g(k) is Some);
            law_first_error(a.len() as int, 0, g, k);
        }
    }
}

/// In a file with nothing but a `scenario` key, what is no array is said to be
/// none, an empty one to be empty, and the first element that is no table, or
/// whose keys are not in order, is.
pub proof fn law_bad_array_is_said(v: Tree, dir: Seq<char>, project_dir: Seq<char>, k: int)
    ensures
        ({
            let r = scenarios_of(Tree::Table(seq![("scenario"@, v)]), dir, project_dir);
            &&& v !is Array ==> r == Err::<Seq<ScenarioModel>, Seq<char>>(
                "scenario `"@ + dir + "`: "@ + "`scenario` must be an array"@,
            )
            &&& (v matches Tree::Array(a) ==> {
                &&& a.len() == 0 ==> r == Err::<Seq<ScenarioModel>, Seq<char>>(
                    "scenario `"@ + dir + "`: "@ + "`[[scenario]]` array is empty"@,
                )
                &&& 0 <= k < a.len() && (forall|j: int| 0 <= j < k ==> element_error(#[trigger] a[j], dir) is None) ==> {
                    &&& a[k] !is Table ==> r == Err::<Seq<ScenarioModel>, Seq<char>>(
                        "scenario `"@ + dir + "`: "@ + "each `[[scenario]]` must be a table"@,
                    )
                    &&& (a[k] matches Tree::Table(t) && scenario_shape_error(t, dir) is Some) ==> r == Err::<
                        Seq<ScenarioModel>,
                        Seq<char>,
                    >(scenario_shape_error(a[k]->Table_0, dir)->0)
                }
            })
        }),
{
    let t = seq![("scenario"@, v)];
    let doc = Tree::Table(t);
    assert(t[0] == ("scenario"@, v));
    law_lookup(t, "scenario"@, 0);
    assert(lookup(t, "scenario"@) == Some(v));
    let f = top_level_errors(t, dir);
    lemma_first_error(1, 0, f);
    assert forall|i: int| 0 <= i < 1 implies (#[trigger] f(i)) is None by {
        assert(t[i].0 == "scenario"@);
    }
    if let Tree::Array(a) = v {
        let g = element_errors(a, dir);
        if 0 <= k < a.len() && (forall|j: int| 0 <= j < k ==> element_error(#[trigger] a[j], dir) is None) && element_error(
            a[k],
            dir,
        ) is Some {
            assert forall|j: int| 0 <= j < k implies (#[trigger] g(j)) is None by {
                assert(element_error(a[j], dir) is None);
            }
            assert(g(k) is Some);
            law_first_error(a.len() as int, 0, g, k);
        }
    }
}

/// What is wrong first with a document is what is said of it: text that is no
/// TOML, keys, values, and then the scenarios as a whole, each in order.
pub proof fn law_first_fault_is_said(text: Seq<char>, doc: Tree, dir: Seq<char>, project_dir: Seq<char>, k: int)
    ensures
        (toml_document(text) matches Err(e) ==> scenarios_of_text(text, dir, project_dir) == Err::<
            Seq<ScenarioModel>,
            Seq<char>,
        >("scenario `"@ + dir + "`: "@ + ("invalid TOML: "@ + e))),
        toml_document(text) == Ok::<Tree, Seq<char>>(doc) ==> scenarios_of_text(text, dir, project_dir) == scenarios_of(
            doc,
            dir,
            project_dir,
        ),
        (key_error(doc, dir) matches Some(e) ==> scenarios_of(doc, dir, project_dir) == Err::<
            Seq<ScenarioModel>,
            Seq<char>,
        >(e)),
        key_error(doc, dir) is None ==> (lookup(doc->Table_0, "scenario"@) matches Some(Tree::Array(a)) ==> {
            &&& 0 <= k < a.len() && (forall|j: int|
                0 <= j < k ==> raw_error((#[trigger] a[j])->Table_0, "scenario"@) is None) ==> (raw_error(
                a[k]->Table_0,
                "scenario"@,
            ) matches Some(e) ==> scenarios_of(doc, dir, project_dir) == Err::<Seq<ScenarioModel>, Seq<char>>(
                "scenario `"@ + dir + "`: "@ + e,
            ))
        }),
        key_error(doc, dir) is None && lookup(doc->Table_0, "scenario"@) is None ==> (raw_error(
            doc->Table_0,
            Seq::empty(),
        ) matches Some(e) ==> scenarios_of(doc, dir, project_dir) == Err::<Seq<ScenarioModel>, Seq<char>>(
            "scenario `"@ + dir + "`: "@ + e,
        )),
{
    reveal_strlit("");
    assert(""@ =~= Seq::<char>::empty());
    let tables = scenario_tables(doc);
    let f = raw_errors(tables, scenario_base(doc));
    if key_error(doc, dir) is None {
        match lookup(doc->Table_0, "scenario"@) {
            Some(Tree::Array(a)) => {
                if 0 <= k < a.len() && (forall|j: int|
                    0 <= j < k ==> raw_error((#[trigger] a[j])->Table_0, "scenario"@) is None) && raw_error(
                    a[k]->Table_0,
                    "scenario"@,
                ) is Some {
                    assert forall|j: int| 0 <= j < k implies (#[trigger] f(j)) is None by {
                        assert(raw_error(a[j]->Table_0, "scenario"@) is None);
                        assert(tables[j] == a[j]->Table_0);
                    }
                    assert(tables[k] == a[k]->Table_0);
                    assert(f(k) is Some);
                    law_first_error(tables.len() as int, 0, f, k);
                }
            },
            None => {
                if raw_error(doc->Table_0, Seq::empty()) is Some {
                    assert(tables[0] == doc->Table_0);
                    assert(f(0) is Some);
                    law_first_error(1, 0, f, 0);
                }
            },
            _ => {},
        }
    }
}

/// The first value of a scenario's table that is not in order is said to be so,
/// and where it stands: `name` and `surface` first, then that there is no
/// surface, and then the inline fields.
pub proof fn law_bad_value_is_said(t: Rows, base: Seq<char>, i: int)
    requires
        0 <= i < t.len(),
        lookup(t, "step"@) is None,
    ensures
        t[i].0 == "name"@ && (forall|j: int|
            0 <= j < i ==> (#[trigger] t[j]).0 != "name"@ && t[j].0 != "surface"@) ==> (string_error(
            lookup(t, "name"@)->0,
        ) matches Some(e) ==> raw_error(t, base) == Some(shown(e, under(base, "name"@)))),
        t[i].0 == "surface"@ && (forall|j: int|
            0 <= j < i ==> (#[trigger] t[j]).0 != "name"@ && t[j].0 != "surface"@) ==> (surface_of(
            lookup(t, "surface"@)->0,
        ) matches Err(e) ==> raw_error(t, base) == Some(shown(e, under(base, "surface"@)))),
        (forall|j: int| 0 <= j < t.len() ==> (#[trigger] t[j]).0 != "name"@ && t[j].0 != "surface"@) ==> raw_error(t, base)
            == Some(shown("missing field `surface`"@, base)),
        (lookup(t, "surface"@) matches Some(v) && surface_of(v) is Ok) && (lookup(t, "name"@) matches Some(v)
            ==> string_error(v) is None) && (forall|j: int|
            0 <= j < i ==> value_error((#[trigger] t[j]).0, t[j].1) is None) ==> (value_error(t[i].0, t[i].1) matches Some(
            e,
        ) ==> raw_error(t, base) == Some(shown(e, base))),
{
    let n = t.len() as int;
    let f = head_errors(t, base);
    reveal_strlit("name");
    reveal_strlit("surface");
    reveal_strlit("step");
    assert("name"@.len() == 4 && "surface"@.len() == 7 && "step"@.len() == 4 && "step"@[0] == 's' && "name"@[0] == 'n');
    assert forall|j: int| 0 <= j < n implies (#[trigger] t[j]).0 != "step"@ by {
        law_lookup(t, "step"@, j);
    }
    lemma_first_error(n, 0, f);
    if forall|j: int| 0 <= j < i ==> (#[trigger] t[j]).0 != "name"@ && t[j].0 != "surface"@ {
        assert forall|j: int| 0 <= j < i implies (#[trigger] f(j)) is None by {
            assert(t[j].0 != "step"@);
        }
        if f(i) is Some {
            law_first_error(n, 0, f, i);
        }
    }
    if forall|j: int| 0 <= j < t.len() ==> (#[trigger] t[j]).0 != "name"@ && t[j].0 != "surface"@ {
        assert forall|j: int| 0 <= j < n implies (#[trigger] f(j)) is None by {
            assert(t[j].0 != "step"@);
        }
        law_lookup(t, "surface"@, 0);
    }
    if (lookup(t, "surface"@) matches Some(v) && surface_of(v) is Ok) && (lookup(t, "name"@) matches Some(v)
        ==> string_error(v) is None) {
        assert forall|j: int| 0 <= j < n implies (#[trigger] f(j)) is None by {
            assert(t[j].0 != "step"@);
            law_lookup(t, "name"@, j);
        }
        if value_error(t[i].0, t[i].1) is Some && (forall|j: int|
            0 <= j < i ==> value_error((#[trigger] t[j]).0, t[j].1) is None) {
            let g = action_errors(t, base);
            assert forall|j: int| 0 <= j < i implies (#[trigger] g(j)) is None by {
                assert(value_error(t[j].0, t[j].1) is None);
            }
            assert(g(i) is Some);
            law_first_error(n, 0, g, i);
        }
    }
}

/// The first value of a step of a sequence that is not in order is said to be
/// so, and where it stands.
pub proof fn law_bad_step_value_is_said(a: Seq<Tree>, t: Rows, base: Seq<char>, k: int, i: int)
    requires
        0 <= k < a.len(),
        a[k] == Tree::Table(t),
        0 <= i < t.len(),
        forall|j: int| 0 <= j < k ==> step_value_error((#[trigger] a[j])->Table_0, under(base, "step"@)) is None,
        forall|j: int| 0 <= j < i ==> value_error((#[trigger] t[j]).0, t[j].1) is None,
        value_error(t[i].0, t[i].1) is Some,
    ensures
        head_error("step"@, Tree::Array(a), base) == Some(
            shown(value_error(t[i].0, t[i].1)->0, under(under(base, "step"@), t[i].0)),
        ),
{
    let path = under(base, "step"@);
    let f = step_value_errors(t, path);
    assert forall|j: int| 0 <= j < i implies (#[trigger] f(j)) is None by {
        assert(value_error(t[j].0, t[j].1) is None);
    }
    assert(f(i) is Some);
    law_first_error(t.len() as int, 0, f, i);
    let g = sequence_errors(a, path);
    assert forall|j: int| 0 <= j < k implies (#[trigger] g(j)) is None by {
        assert(step_value_error(a[j]->Table_0, path) is None);
    }
    assert(g(k) is Some);
    law_first_error(a.len() as int, 0, g, k);
    reveal_strlit("name");
    reveal_strlit("surface");
    reveal_strlit("step");
    assert("name"@[0] == 'n' && "surface"@.len() == 7 && "step"@.len() == 4 && "step"@[0] == 's');
}

} // verus!
