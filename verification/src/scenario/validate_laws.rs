//! Which steps and which scenarios are well-formed, field by field.

use vstd::prelude::*;

use crate::scenario::model::{
    all_fields, field_text, field_texts, step_sets, surface_text, surface_uses, Field, Scenario, ScenarioModel,
    Step, StepModel, Surface,
};
use crate::scenario::validate::{needs_position, step_count_error, step_error, stray_fields};
use crate::text::{decimal, joined, occurs, text_of};
use crate::text_laws::{lemma_occurs, lemma_occurs_inside};

verus! {

/// A request carries a cursor if and only if it is about one place of a
/// document.
pub proof fn law_needs_position(method: Seq<char>)
    ensures
        needs_position(method) <==> seq![
            "textDocument/hover"@,
            "textDocument/definition"@,
            "textDocument/declaration"@,
            "textDocument/typeDefinition"@,
            "textDocument/implementation"@,
            "textDocument/references"@,
            "textDocument/documentHighlight"@,
            "textDocument/completion"@,
            "textDocument/inlineCompletion"@,
            "textDocument/signatureHelp"@,
            "textDocument/rename"@,
            "textDocument/prepareRename"@,
            "textDocument/prepareCallHierarchy"@,
            "textDocument/prepareTypeHierarchy"@,
            "textDocument/linkedEditingRange"@,
            "textDocument/moniker"@,
            "textDocument/onTypeFormatting"@,
            "textDocument/selectionRange"@,
        ].contains(method),
{
    let all = seq![
        "textDocument/hover"@,
        "textDocument/definition"@,
        "textDocument/declaration"@,
        "textDocument/typeDefinition"@,
        "textDocument/implementation"@,
        "textDocument/references"@,
        "textDocument/documentHighlight"@,
        "textDocument/completion"@,
        "textDocument/inlineCompletion"@,
        "textDocument/signatureHelp"@,
        "textDocument/rename"@,
        "textDocument/prepareRename"@,
        "textDocument/prepareCallHierarchy"@,
        "textDocument/prepareTypeHierarchy"@,
        "textDocument/linkedEditingRange"@,
        "textDocument/moniker"@,
        "textDocument/onTypeFormatting"@,
        "textDocument/selectionRange"@,
    ];
    assert(all[0] == "textDocument/hover"@);
    assert(all[1] == "textDocument/definition"@);
    assert(all[2] == "textDocument/declaration"@);
    assert(all[3] == "textDocument/typeDefinition"@);
    assert(all[4] == "textDocument/implementation"@);
    assert(all[5] == "textDocument/references"@);
    assert(all[6] == "textDocument/documentHighlight"@);
    assert(all[7] == "textDocument/completion"@);
    assert(all[8] == "textDocument/inlineCompletion"@);
    assert(all[9] == "textDocument/signatureHelp"@);
    assert(all[10] == "textDocument/rename"@);
    assert(all[11] == "textDocument/prepareRename"@);
    assert(all[12] == "textDocument/prepareCallHierarchy"@);
    assert(all[13] == "textDocument/prepareTypeHierarchy"@);
    assert(all[14] == "textDocument/linkedEditingRange"@);
    assert(all[15] == "textDocument/moniker"@);
    assert(all[16] == "textDocument/onTypeFormatting"@);
    assert(all[17] == "textDocument/selectionRange"@);
    if all.contains(method) {
        let i = choose|i: int| 0 <= i < all.len() && all[i] == method;
        assert(needs_position(all[i]));
    }
}

/// A filter leaves something if and only if something passes it.
proof fn lemma_filter(v: Seq<Field>, p: spec_fn(Field) -> bool)
    ensures
        forall|i: int| 0 <= i < v.len() && p(#[trigger] v[i]) ==> v.filter(p).contains(v[i]),
        forall|f: Field| #[trigger] v.filter(p).contains(f) ==> p(f),
    decreases v.len(),
{
    reveal(Seq::filter);
    if v.len() > 0 {
        let front = v.drop_last();
        lemma_filter(front, p);
        let kept = front.filter(p);
        let all = v.filter(p);
        assert forall|i: int| 0 <= i < v.len() && p(#[trigger] v[i]) implies all.contains(v[i]) by {
            if i < front.len() {
                assert(front[i] == v[i]);
                assert(kept.contains(v[i]));
                let k = choose|k: int| 0 <= k < kept.len() && kept[k] == v[i];
                assert(all[k] == v[i]);
            } else {
                assert(all.last() == v[i]);
            }
        }
        assert forall|f: Field| #[trigger] all.contains(f) implies p(f) by {
            let k = choose|k: int| 0 <= k < all.len() && all[k] == f;
            if k < kept.len() {
                assert(kept[k] == f);
                assert(kept.contains(f));
            }
        }
    }
}

/// A field is stray if and only if the step sets it and the surface does not use
/// it.
pub proof fn law_stray_fields(surface: Surface, step: StepModel, f: Field)
    ensures
        stray_fields(surface, step).contains(f) <==> step_sets(step, f) && !surface_uses(surface, f),
{
    let p = |g: Field| step_sets(step, g) && !surface_uses(surface, g);
    lemma_filter(all_fields(), p);
    lemma_listed(f);
}

/// Every key is in the list of keys.
proof fn lemma_listed(f: Field)
    ensures
        exists|i: int| 0 <= i < all_fields().len() && #[trigger] all_fields()[i] == f,
{
    let v = all_fields();
    assert(v[0] == Field::Entrypoint);
    assert(v[1] == Field::Args);
    assert(v[2] == Field::Setup);
    assert(v[3] == Field::Cwd);
    assert(v[4] == Field::Stdout);
    assert(v[5] == Field::StdoutContains);
    assert(v[6] == Field::StderrContains);
    assert(v[7] == Field::ExitCode);
    assert(v[8] == Field::Method);
    assert(v[9] == Field::Source);
    assert(v[10] == Field::Line);
    assert(v[11] == Field::Character);
    assert(v[12] == Field::ResponseContains);
    assert(v[13] == Field::Tool);
    assert(v[14] == Field::Code);
    assert(v[15] == Field::Arguments);
}

/// A step is in order if and only if it says all that its surface needs and
/// nothing that its surface has no use for. On `lsp` and `mcp` it must assert
/// something where it is the only one.
pub proof fn law_step_in_order(surface: Surface, step: StepModel, multi: bool)
    ensures
        step_error(surface, step, multi) is None <==> match surface {
            Surface::Bunit => {
                &&& step.entrypoint is None
                &&& step.args is None
                &&& step.setup is None
                &&& step.cwd is None
                &&& step.stdout is None
                &&& step.stdout_contains is None
                &&& step.stderr_contains is None
                &&& step.exit_code is None
                &&& step.lsp_method is None
                &&& step.source is None
                &&& step.line is None
                &&& step.character is None
                &&& step.response_contains is None
                &&& step.tool is None
                &&& step.code is None
                &&& step.arguments is None
            },
            Surface::Run => {
                &&& step.entrypoint is Some
                &&& step.stdout is Some || step.exit_code is Some
                &&& step.args is None
                &&& step.setup is None
                &&& step.cwd is None
                &&& step.stdout_contains is None
                &&& step.stderr_contains is None
                &&& step.lsp_method is None
                &&& step.source is None
                &&& step.line is None
                &&& step.character is None
                &&& step.response_contains is None
                &&& step.tool is None
                &&& step.code is None
                &&& step.arguments is None
            },
            Surface::Cli => {
                &&& step.args is Some
                &&& step.entrypoint is None
                &&& step.stdout is None
                &&& step.lsp_method is None
                &&& step.source is None
                &&& step.line is None
                &&& step.character is None
                &&& step.response_contains is None
                &&& step.tool is None
                &&& step.code is None
                &&& step.arguments is None
            },
            Surface::Lsp => {
                &&& step.lsp_method is Some
                &&& step.source is Some
                &&& multi || step.response_contains is Some
                &&& needs_position(step.lsp_method->0) ==> step.line is Some && step.character is Some
                &&& step.entrypoint is None
                &&& step.args is None
                &&& step.setup is None
                &&& step.cwd is None
                &&& step.stdout is None
                &&& step.stdout_contains is None
                &&& step.stderr_contains is None
                &&& step.exit_code is None
                &&& step.tool is None
                &&& step.code is None
                &&& step.arguments is None
            },
            Surface::Mcp => {
                &&& step.tool is Some
                &&& multi || step.response_contains is Some
                &&& step.code is None || step.arguments is None
                &&& step.entrypoint is None
                &&& step.args is None
                &&& step.setup is None
                &&& step.cwd is None
                &&& step.stdout is None
                &&& step.stdout_contains is None
                &&& step.stderr_contains is None
                &&& step.exit_code is None
                &&& step.lsp_method is None
                &&& step.source is None
                &&& step.line is None
                &&& step.character is None
            },
        },
{
    let stray = stray_fields(surface, step);
    let fits = stray.len() == 0;
    assert forall|f: Field| (#[trigger] step_sets(step, f)) && !surface_uses(surface, f) implies !fits by {
        law_stray_fields(surface, step, f);
    }
    if !fits {
        law_stray_fields(surface, step, stray[0]);
        assert(stray.contains(stray[0]));
    }
    assert(step_sets(step, Field::Entrypoint) ==> (fits ==> surface_uses(surface, Field::Entrypoint)));
    assert(step_sets(step, Field::Args) ==> (fits ==> surface_uses(surface, Field::Args)));
    assert(step_sets(step, Field::Setup) ==> (fits ==> surface_uses(surface, Field::Setup)));
    assert(step_sets(step, Field::Cwd) ==> (fits ==> surface_uses(surface, Field::Cwd)));
    assert(step_sets(step, Field::Stdout) ==> (fits ==> surface_uses(surface, Field::Stdout)));
    assert(step_sets(step, Field::StdoutContains) ==> (fits ==> surface_uses(surface, Field::StdoutContains)));
    assert(step_sets(step, Field::StderrContains) ==> (fits ==> surface_uses(surface, Field::StderrContains)));
    assert(step_sets(step, Field::ExitCode) ==> (fits ==> surface_uses(surface, Field::ExitCode)));
    assert(step_sets(step, Field::Method) ==> (fits ==> surface_uses(surface, Field::Method)));
    assert(step_sets(step, Field::Source) ==> (fits ==> surface_uses(surface, Field::Source)));
    assert(step_sets(step, Field::Line) ==> (fits ==> surface_uses(surface, Field::Line)));
    assert(step_sets(step, Field::Character) ==> (fits ==> surface_uses(surface, Field::Character)));
    assert(step_sets(step, Field::ResponseContains) ==> (fits ==> surface_uses(surface, Field::ResponseContains)));
    assert(step_sets(step, Field::Tool) ==> (fits ==> surface_uses(surface, Field::Tool)));
    assert(step_sets(step, Field::Code) ==> (fits ==> surface_uses(surface, Field::Code)));
    assert(step_sets(step, Field::Arguments) ==> (fits ==> surface_uses(surface, Field::Arguments)));
}

/// What is joined holds each of its parts.
proof fn lemma_joined_holds(parts: Seq<Seq<char>>, sep: Seq<char>, i: int)
    requires
        0 <= i < parts.len(),
    ensures
        occurs(joined(parts, sep), parts[i]),
    decreases parts.len(),
{
    let whole = joined(parts, sep);
    let none = Seq::<char>::empty();
    if parts.len() == 1 {
        assert(whole =~= none + parts[0] + none);
        lemma_occurs(none, parts[0], none);
    } else if i == parts.len() - 1 {
        let front = joined(parts.drop_last(), sep) + sep;
        assert(whole =~= front + parts[i] + none);
        lemma_occurs(front, parts[i], none);
    } else {
        let front = joined(parts.drop_last(), sep);
        lemma_joined_holds(parts.drop_last(), sep, i);
        assert(whole =~= none + front + (sep + parts.last()));
        lemma_occurs_inside(none, front, sep + parts.last(), parts[i]);
    }
}

/// A field that a surface has no use for is named, with the surface, as the
/// author wrote it.
pub proof fn law_stray_is_named(surface: Surface, step: StepModel, multi: bool, f: Field)
    requires
        step_sets(step, f),
        !surface_uses(surface, f),
    ensures
        step_error(surface, step, multi) matches Some(m) && occurs(m, field_text(f)) && m == "`"@ + surface_text(surface)
            + "` surface does not use field(s): "@ + joined(field_texts(stray_fields(surface, step)), ", "@),
{
    let stray = stray_fields(surface, step);
    law_stray_fields(surface, step, f);
    let i = choose|i: int| 0 <= i < stray.len() && stray[i] == f;
    let names = field_texts(stray);
    assert(names[i] == field_text(f));
    lemma_joined_holds(names, ", "@, i);
    let tail = joined(names, ", "@);
    let head = "`"@ + surface_text(surface) + "` surface does not use field(s): "@;
    let m = step_error(surface, step, multi)->0;
    let none = Seq::<char>::empty();
    assert(m == head + tail);
    assert(m =~= head + tail + none);
    lemma_occurs_inside(head, tail, none, field_text(f));
}

/// The number of steps is in order if and only if there is one, or there are
/// several and they share a session.
pub proof fn law_step_count(s: ScenarioModel)
    ensures
        step_count_error(s) is None <==> s.steps.len() == 1 || (s.steps.len() > 1 && (s.surface is Lsp || s.surface is Mcp)),
        s.steps.len() == 0 ==> step_count_error(s) == Some("scenario `"@ + s.name + "` has no steps"@),
        s.steps.len() > 1 && step_count_error(s) is Some ==> occurs(
            step_count_error(s)->0,
            "` surface expects exactly one step, got "@ + decimal(s.steps.len()),
        ),
{
    if s.steps.len() > 1 && step_count_error(s) is Some {
        let m = step_count_error(s)->0;
        let a = "scenario `"@ + s.name + "`: `"@ + surface_text(s.surface);
        let n = "` surface expects exactly one step, got "@ + decimal(s.steps.len());
        let none = Seq::<char>::empty();
        assert(m =~= a + n + none);
        lemma_occurs(a, n, none);
    }
}

/// The keys of a step as an author writes them, in the order in which they are
/// named, and the fields that they set.
pub proof fn law_field_keys(step: StepModel)
    ensures
        field_texts(all_fields()) == seq![
            "entrypoint"@,
            "args"@,
            "setup"@,
            "cwd"@,
            "stdout"@,
            "stdout_contains"@,
            "stderr_contains"@,
            "exit_code"@,
            "method"@,
            "source"@,
            "line"@,
            "character"@,
            "response_contains"@,
            "tool"@,
            "code"@,
            "arguments"@,
        ],
        step_sets(step, Field::Entrypoint) <==> step.entrypoint is Some,
        field_text(Field::Entrypoint) == "entrypoint"@,
        step_sets(step, Field::Args) <==> step.args is Some,
        field_text(Field::Args) == "args"@,
        step_sets(step, Field::Setup) <==> step.setup is Some,
        field_text(Field::Setup) == "setup"@,
        step_sets(step, Field::Cwd) <==> step.cwd is Some,
        field_text(Field::Cwd) == "cwd"@,
        step_sets(step, Field::Stdout) <==> step.stdout is Some,
        field_text(Field::Stdout) == "stdout"@,
        step_sets(step, Field::StdoutContains) <==> step.stdout_contains is Some,
        field_text(Field::StdoutContains) == "stdout_contains"@,
        step_sets(step, Field::StderrContains) <==> step.stderr_contains is Some,
        field_text(Field::StderrContains) == "stderr_contains"@,
        step_sets(step, Field::ExitCode) <==> step.exit_code is Some,
        field_text(Field::ExitCode) == "exit_code"@,
        step_sets(step, Field::Method) <==> step.lsp_method is Some,
        field_text(Field::Method) == "method"@,
        step_sets(step, Field::Source) <==> step.source is Some,
        field_text(Field::Source) == "source"@,
        step_sets(step, Field::Line) <==> step.line is Some,
        field_text(Field::Line) == "line"@,
        step_sets(step, Field::Character) <==> step.character is Some,
        field_text(Field::Character) == "character"@,
        step_sets(step, Field::ResponseContains) <==> step.response_contains is Some,
        field_text(Field::ResponseContains) == "response_contains"@,
        step_sets(step, Field::Tool) <==> step.tool is Some,
        field_text(Field::Tool) == "tool"@,
        step_sets(step, Field::Code) <==> step.code is Some,
        field_text(Field::Code) == "code"@,
        step_sets(step, Field::Arguments) <==> step.arguments is Some,
        field_text(Field::Arguments) == "arguments"@,
{
    assert(field_texts(all_fields()) =~= seq![
        "entrypoint"@,
        "args"@,
        "setup"@,
        "cwd"@,
        "stdout"@,
        "stdout_contains"@,
        "stderr_contains"@,
        "exit_code"@,
        "method"@,
        "source"@,
        "line"@,
        "character"@,
        "response_contains"@,
        "tool"@,
        "code"@,
        "arguments"@,
    ]);
}

/// What a step says is what its fields hold.
pub proof fn law_step_view(step: Step, s: String)
    ensures
        text_of(Some(s)) == Some(s@),
        text_of(None) is None,
        step@.entrypoint == text_of(step.entrypoint),
        step@.args == text_of(step.args),
        step@.setup == text_of(step.setup),
        step@.cwd == text_of(step.cwd),
        step@.stdout == text_of(step.stdout),
        step@.stdout_contains == text_of(step.stdout_contains),
        step@.stderr_contains == text_of(step.stderr_contains),
        step@.exit_code == step.exit_code,
        step@.lsp_method == text_of(step.lsp_method),
        step@.source == text_of(step.source),
        step@.line == step.line,
        step@.character == step.character,
        step@.response_contains == text_of(step.response_contains),
        step@.tool == text_of(step.tool),
        step@.code == text_of(step.code),
        step@.arguments == text_of(step.arguments),
{
}

/// What a scenario says is what its fields hold, and what each of its steps says,
/// in order.
pub proof fn law_scenario_view(s: Scenario, i: int)
    ensures
        s@.name == s.name@,
        s@.dir_name == s.dir_name@,
        s@.project_dir == s.project_dir@,
        s@.surface == s.surface,
        s@.steps.len() == s.steps@.len(),
        0 <= i < s.steps@.len() ==> s@.steps[i] == s.steps@[i]@,
{
}

} // verus!
