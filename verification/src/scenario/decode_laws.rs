//! What the tables of an `expect.toml` come to, key by key.

use vstd::prelude::*;

use crate::document::Tree;
use crate::scenario::decode::{
    action_errors, head_error, head_errors, raw_at, raw_error, sequence_errors, step_at, step_value_error,
    step_value_errors, surface_named, surface_of, text_at, under, value_error,
};
use crate::scenario::keys::{lookup, scenario_key, step_key, Rows};
use crate::scenario::model::{all_fields, field_text, field_texts, step_sets, Field, StepModel, Surface};
use crate::text::lemma_first_error;

verus! {

/// What stands under a key is the value of the first row of that key; and
/// nothing does if and only if there is no such row.
pub proof fn law_lookup(t: Rows, key: Seq<char>, i: int)
    ensures
        lookup(t, key) is None <==> forall|j: int| 0 <= j < t.len() ==> (#[trigger] t[j]).0 != key,
        0 <= i < t.len() && t[i].0 == key && (forall|j: int| 0 <= j < i ==> (#[trigger] t[j]).0 != key) ==> lookup(t, key)
            == Some(t[i].1),
    decreases t.len(),
{
    if t.len() > 0 && t[0].0 != key {
        let rest = t.drop_first();
        law_lookup(rest, key, i - 1);
        if forall|j: int| 0 <= j < t.len() ==> (#[trigger] t[j]).0 != key {
            assert forall|j: int| 0 <= j < rest.len() implies (#[trigger] rest[j]).0 != key by {
                assert(rest[j] == t[j + 1]);
            }
        }
        if lookup(t, key) is None {
            assert forall|j: int| 0 <= j < t.len() implies (#[trigger] t[j]).0 != key by {
                if j > 0 {
                    assert(t[j] == rest[j - 1]);
                }
            }
        }
        if 0 <= i < t.len() && t[i].0 == key && (forall|j: int| 0 <= j < i ==> (#[trigger] t[j]).0 != key) {
            assert(rest[i - 1] == t[i]);
            assert forall|j: int| 0 <= j < i - 1 implies (#[trigger] rest[j]).0 != key by {
                assert(rest[j] == t[j + 1]);
            }
        }
    }
}

/// The keys that a step may carry, and those that a scenario may carry besides.
pub proof fn law_keys(key: Seq<char>)
    ensures
        step_key(key) <==> seq![
            "entrypoint"@,
            "args"@,
            "setup"@,
            "cwd"@,
            "stdout"@,
            "stdout_contains"@,
            "stderr_contains"@,
            "exit_code"@,
            "method"@,
            "source"@,
            "line"@,
            "character"@,
            "response_contains"@,
            "tool"@,
            "code"@,
            "arguments"@,
        ].contains(key),
        scenario_key(key) <==> step_key(key) || seq!["name"@, "surface"@, "step"@].contains(key),
{
    let names = seq![
        "entrypoint"@,
        "args"@,
        "setup"@,
        "cwd"@,
        "stdout"@,
        "stdout_contains"@,
        "stderr_contains"@,
        "exit_code"@,
        "method"@,
        "source"@,
        "line"@,
        "character"@,
        "response_contains"@,
        "tool"@,
        "code"@,
        "arguments"@,
    ];
    assert(field_texts(all_fields()) =~= names);
    let more = seq!["name"@, "surface"@, "step"@];
    assert(more[0] == "name"@ && more[1] == "surface"@ && more[2] == "step"@);
}

/// Whether `v` is a text, and which: a string, or a date by its own text.
pub open spec fn is_text(v: Tree, s: Seq<char>) -> bool {
    v == Tree::Str(s) || v == Tree::Datetime(s)
}

/// Whether `field` is the text under `key`, and is unset where there is none.
pub open spec fn text_under(t: Rows, key: Seq<char>, field: Option<Seq<char>>) -> bool {
    match lookup(t, key) {
        Some(v) => field matches Some(s) && is_text(v, s),
        None => field is None,
    }
}

/// Whether `field` is the number under `key`, and is unset where there is none.
pub open spec fn int_under(t: Rows, key: Seq<char>, field: Option<int>) -> bool {
    match lookup(t, key) {
        Some(v) => field matches Some(n) && (v matches Tree::Int(i) && i == n),
        None => field is None,
    }
}

/// Whether a step says what a table says, key by key: all of it, and nothing
/// besides.
pub open spec fn spelled_out(t: Rows, step: StepModel) -> bool {
    &&& text_under(t, "entrypoint"@, step.entrypoint)
    &&& text_under(t, "args"@, step.args)
    &&& text_under(t, "setup"@, step.setup)
    &&& text_under(t, "cwd"@, step.cwd)
    &&& text_under(t, "stdout"@, step.stdout)
    &&& text_under(t, "stdout_contains"@, step.stdout_contains)
    &&& text_under(t, "stderr_contains"@, step.stderr_contains)
    &&& int_under(t, "exit_code"@, match step.exit_code {
        Some(n) => Some(n as int),
        None => None,
    })
    &&& text_under(t, "method"@, step.lsp_method)
    &&& text_under(t, "source"@, step.source)
    &&& int_under(t, "line"@, match step.line {
        Some(n) => Some(n as int),
        None => None,
    })
    &&& int_under(t, "character"@, match step.character {
        Some(n) => Some(n as int),
        None => None,
    })
    &&& text_under(t, "response_contains"@, step.response_contains)
    &&& text_under(t, "tool"@, step.tool)
    &&& text_under(t, "code"@, step.code)
    &&& text_under(t, "arguments"@, step.arguments)
}

/// What is wrong with the values of a step is which of them has the wrong type:
/// an exit code, a line and a character are numbers that fit, and all else is
/// text.
pub proof fn law_value_types(key: Seq<char>, v: Tree)
    ensures
        step_key(key) ==> (value_error(key, v) is None <==> {
            if key == "exit_code"@ {
                v matches Tree::Int(n) && -0x8000_0000 <= n <= 0x7fff_ffff
            } else if key == "line"@ || key == "character"@ {
                v matches Tree::Int(n) && 0 <= n <= 0xffff_ffff
            } else {
                v is Str || v is Datetime
            }
        }),
        !step_key(key) ==> value_error(key, v) is None,
{
}

/// A step of a table without errors says exactly what the table says: each of
/// its fields is set if and only if the table has its key, and is what stands
/// there. No assertion is dropped, none is made up, and none takes the place of
/// another.
pub proof fn law_decoded_step(t: Rows, path: Seq<char>)
    requires
        step_value_error(t, path) is None,
    ensures
        spelled_out(t, step_at(t)),
{
    let errors = step_value_errors(t, path);
    lemma_first_error(t.len() as int, 0, errors);
    assert forall|i: int| 0 <= i < t.len() implies value_error((#[trigger] t[i]).0, t[i].1) is None by {
        assert(errors(i) is None);
    }
    lemma_spelled_out(t);
}

/// Whether a field is set by a step of a table without errors.
pub proof fn law_decoded_field(t: Rows, path: Seq<char>, f: Field)
    requires
        step_value_error(t, path) is None,
    ensures
        step_sets(step_at(t), f) <==> lookup(t, field_text(f)) is Some,
{
    law_decoded_step(t, path);
}

/// The value that is found is the value of a row.
proof fn lemma_lookup_value(t: Rows, key: Seq<char>)
    requires
        lookup(t, key) is Some,
    ensures
        exists|i: int| 0 <= i < t.len() && (#[trigger] t[i]).0 == key && t[i].1 == lookup(t, key)->0,
    decreases t.len(),
{
    if t[0].0 != key {
        let rest = t.drop_first();
        lemma_lookup_value(rest, key);
        let i = choose|i: int| 0 <= i < rest.len() && (#[trigger] rest[i]).0 == key && rest[i].1 == lookup(rest, key)->0;
        assert(t[i + 1] == rest[i]);
    } else {
        assert(t[0].0 == key);
    }
}

/// The value under a key of a step is in order where all values are.
proof fn lemma_value_at(t: Rows, key: Seq<char>)
    requires
        forall|i: int| 0 <= i < t.len() ==> value_error((#[trigger] t[i]).0, t[i].1) is None,
    ensures
        lookup(t, key) is Some ==> value_error(key, lookup(t, key)->0) is None,
{
    if lookup(t, key) is Some {
        lemma_lookup_value(t, key);
    }
}

/// The text under a key of a step, where it is not a key of numbers.
proof fn lemma_text_under(t: Rows, key: Seq<char>)
    requires
        forall|i: int| 0 <= i < t.len() ==> value_error((#[trigger] t[i]).0, t[i].1) is None,
        step_key(key),
        key != "exit_code"@,
        key != "line"@,
        key != "character"@,
    ensures
        text_under(t, key, text_at(t, key)),
{
    lemma_value_at(t, key);
}

/// A table whose values are in order is spelled out by its step.
proof fn lemma_spelled_out(t: Rows)
    requires
        forall|i: int| 0 <= i < t.len() ==> value_error((#[trigger] t[i]).0, t[i].1) is None,
    ensures
        spelled_out(t, step_at(t)),
{
    let names = field_texts(all_fields());
    assert(names[0] == "entrypoint"@);
    assert(names[1] == "args"@);
    assert(names[2] == "setup"@);
    assert(names[3] == "cwd"@);
    assert(names[4] == "stdout"@);
    assert(names[5] == "stdout_contains"@);
    assert(names[6] == "stderr_contains"@);
    assert(names[7] == "exit_code"@);
    assert(names[8] == "method"@);
    assert(names[9] == "source"@);
    assert(names[10] == "line"@);
    assert(names[11] == "character"@);
    assert(names[12] == "response_contains"@);
    assert(names[13] == "tool"@);
    assert(names[14] == "code"@);
    assert(names[15] == "arguments"@);
    lemma_number_keys();
    lemma_text_under(t, "entrypoint"@);
    lemma_text_under(t, "args"@);
    lemma_text_under(t, "setup"@);
    lemma_text_under(t, "cwd"@);
    lemma_text_under(t, "stdout"@);
    lemma_text_under(t, "stdout_contains"@);
    lemma_text_under(t, "stderr_contains"@);
    lemma_text_under(t, "method"@);
    lemma_text_under(t, "source"@);
    lemma_text_under(t, "response_contains"@);
    lemma_text_under(t, "tool"@);
    lemma_text_under(t, "code"@);
    lemma_text_under(t, "arguments"@);
    lemma_value_at(t, "exit_code"@);
    lemma_value_at(t, "line"@);
    lemma_value_at(t, "character"@);
}

/// The keys of numbers are told from those of texts.
proof fn lemma_number_keys()
    ensures
        "line"@ != "exit_code"@,
        "character"@ != "exit_code"@,
        "entrypoint"@ != "exit_code"@,
        "entrypoint"@ != "line"@,
        "entrypoint"@ != "character"@,
        "args"@ != "exit_code"@,
        "args"@ != "line"@,
        "args"@ != "character"@,
        "setup"@ != "exit_code"@,
        "setup"@ != "line"@,
        "setup"@ != "character"@,
        "cwd"@ != "exit_code"@,
        "cwd"@ != "line"@,
        "cwd"@ != "character"@,
        "stdout"@ != "exit_code"@,
        "stdout"@ != "line"@,
        "stdout"@ != "character"@,
        "stdout_contains"@ != "exit_code"@,
        "stdout_contains"@ != "line"@,
        "stdout_contains"@ != "character"@,
        "stderr_contains"@ != "exit_code"@,
        "stderr_contains"@ != "line"@,
        "stderr_contains"@ != "character"@,
        "method"@ != "exit_code"@,
        "method"@ != "line"@,
        "method"@ != "character"@,
        "source"@ != "exit_code"@,
        "source"@ != "line"@,
        "source"@ != "character"@,
        "response_contains"@ != "exit_code"@,
        "response_contains"@ != "line"@,
        "response_contains"@ != "character"@,
        "tool"@ != "exit_code"@,
        "tool"@ != "line"@,
        "tool"@ != "character"@,
        "code"@ != "exit_code"@,
        "code"@ != "line"@,
        "code"@ != "character"@,
        "arguments"@ != "exit_code"@,
        "arguments"@ != "line"@,
        "arguments"@ != "character"@,
{
    reveal_strlit("entrypoint");
    reveal_strlit("args");
    reveal_strlit("setup");
    reveal_strlit("cwd");
    reveal_strlit("stdout");
    reveal_strlit("stdout_contains");
    reveal_strlit("stderr_contains");
    reveal_strlit("exit_code");
    reveal_strlit("method");
    reveal_strlit("source");
    reveal_strlit("line");
    reveal_strlit("character");
    reveal_strlit("response_contains");
    reveal_strlit("tool");
    reveal_strlit("code");
    reveal_strlit("arguments");
    assert("entrypoint"@.len() == 10);
    assert("args"@.len() == 4);
    assert("setup"@.len() == 5);
    assert("cwd"@.len() == 3);
    assert("stdout"@.len() == 6);
    assert("stdout_contains"@.len() == 15);
    assert("stderr_contains"@.len() == 15);
    assert("exit_code"@.len() == 9);
    assert("method"@.len() == 6);
    assert("source"@.len() == 6);
    assert("line"@.len() == 4);
    assert("character"@.len() == 9);
    assert("response_contains"@.len() == 17);
    assert("tool"@.len() == 4);
    assert("code"@.len() == 4);
    assert("arguments"@.len() == 9);
    assert("character"@[1] == 'h');
    assert("exit_code"@[1] == 'x');
    assert("arguments"@[1] == 'r');
    assert("line"@[0] == 'l');
    assert("args"@[0] == 'a');
    assert("tool"@[0] == 't');
    assert("code"@[0] == 'c');
}

/// The surfaces by their names.
pub proof fn law_surface_names(name: Seq<char>, s: Surface)
    ensures
        surface_named(name) == Some(s) <==> {
            ||| name == "bunit"@ && s is Bunit
            ||| name == "run"@ && s is Run
            ||| name == "cli"@ && s is Cli
            ||| name == "lsp"@ && s is Lsp
            ||| name == "mcp"@ && s is Mcp
        },
        surface_of(Tree::Str(name)) == Ok::<Surface, Seq<char>>(s) <==> surface_named(name) == Some(s),
{
    reveal_strlit("bunit");
    reveal_strlit("run");
    reveal_strlit("cli");
    reveal_strlit("lsp");
    reveal_strlit("mcp");
    assert("bunit"@[0] == 'b' && "run"@[0] == 'r' && "cli"@[0] == 'c' && "lsp"@[0] == 'l' && "mcp"@[0] == 'm');
}

/// A surface is given by its name, alone or as the only key of a table with
/// nothing under it, and in no other way.
pub proof fn law_surface_forms(v: Tree, s: Surface)
    ensures
        surface_of(v) == Ok::<Surface, Seq<char>>(s) <==> {
            ||| v matches Tree::Str(name) && surface_named(name) == Some(s)
            ||| v matches Tree::Table(t) && t.len() == 1 && surface_named(t[0].0) == Some(s) && (t[0].1 == Tree::Array(
                Seq::empty(),
            ) || t[0].1 == Tree::Table(Seq::empty()))
        },
{
    match v {
        Tree::Table(t) => {
            if t.len() == 1 {
                match t[0].1 {
                    Tree::Array(a) => {
                        if a.len() == 0 {
                            assert(a =~= Seq::empty());
                        }
                    },
                    Tree::Table(b) => {
                        if b.len() == 0 {
                            assert(b =~= Seq::empty());
                        }
                    },
                    _ => {},
                }
            }
        },
        _ => {},
    }
}

/// A scenario of a table without errors says exactly what the table says: its
/// name, its surface, its inline fields, and each step of its sequence, in order.
pub proof fn law_decoded_scenario(t: Rows, base: Seq<char>)
    requires
        raw_error(t, base) is None,
    ensures
        ({
            let raw = raw_at(t);
            &&& text_under(t, "name"@, raw.name)
            &&& lookup(t, "surface"@) is Some
            &&& surface_of(lookup(t, "surface"@)->0) == Ok::<Surface, Seq<char>>(raw.surface)
            &&& spelled_out(t, raw.action)
            &&& match lookup(t, "step"@) {
                Some(Tree::Array(a)) => {
                    &&& raw.step.len() == a.len()
                    &&& forall|k: int| 0 <= k < a.len() ==> spelled_out((#[trigger] a[k])->Table_0, raw.step[k])
                },
                _ => raw.step.len() == 0,
            }
        }),
{
    let raw = raw_at(t);
    let heads = head_errors(t, base);
    let actions = action_errors(t, base);
    lemma_first_error(t.len() as int, 0, heads);
    lemma_first_error(t.len() as int, 0, actions);
    assert forall|i: int| 0 <= i < t.len() implies value_error((#[trigger] t[i]).0, t[i].1) is None by {
        assert(actions(i) is None);
    }
    lemma_spelled_out(t);
    reveal_strlit("name");
    reveal_strlit("surface");
    reveal_strlit("step");
    assert("name"@.len() == 4 && "surface"@.len() == 7 && "step"@.len() == 4);
    assert("name"@[0] == 'n' && "step"@[0] == 's');
    lemma_head(t, base, "name"@);
    lemma_head(t, base, "surface"@);
    lemma_head(t, base, "step"@);
    match lookup(t, "step"@) {
        Some(Tree::Array(a)) => {
            let path = under(base, "step"@);
            let f = sequence_errors(a, path);
            lemma_first_error(a.len() as int, 0, f);
            assert forall|k: int| 0 <= k < a.len() implies spelled_out((#[trigger] a[k])->Table_0, raw.step[k]) by {
                assert(f(k) is None);
                law_decoded_step(a[k]->Table_0, path);
            }
        },
        _ => {},
    }
}

/// A scenario-level key of a table without errors has none.
proof fn lemma_head(t: Rows, base: Seq<char>, key: Seq<char>)
    requires
        forall|i: int| 0 <= i < t.len() ==> (#[trigger] head_errors(t, base)(i)) is None,
    ensures
        lookup(t, key) is Some ==> head_error(key, lookup(t, key)->0, base) is None,
{
    if lookup(t, key) is Some {
        lemma_lookup_value(t, key);
        let i = choose|i: int| 0 <= i < t.len() && (#[trigger] t[i]).0 == key && t[i].1 == lookup(t, key)->0;
        assert(head_errors(t, base)(i) is None);
    }
}

} // verus!
