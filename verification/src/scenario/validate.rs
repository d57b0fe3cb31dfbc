//! What makes a step and a scenario well-formed.

use vstd::prelude::*;

use crate::scenario::model::{
    all_fields, field_text, field_texts, session_backed, step_sets, surface_name, surface_text, surface_uses, Field,
    Scenario, ScenarioModel, Step, StepModel, Surface,
};
use crate::text::{cat2, cat3, cat4, cat5, decimal, decimal_text, join_strs, joined, same, strs, verdict};

verus! {

/// The fields that `step` sets and `surface` does not use.
pub open spec fn stray_fields(surface: Surface, step: StepModel) -> Seq<Field> {
    all_fields().filter(|f: Field| step_sets(step, f) && !surface_uses(surface, f))
}

/// Whether requests of an LSP method carry a cursor position.
pub open spec fn needs_position(method: Seq<char>) -> bool {
    ||| method == "textDocument/hover"@
    ||| method == "textDocument/definition"@
    ||| method == "textDocument/declaration"@
    ||| method == "textDocument/typeDefinition"@
    ||| method == "textDocument/implementation"@
    ||| method == "textDocument/references"@
    ||| method == "textDocument/documentHighlight"@
    ||| method == "textDocument/completion"@
    ||| method == "textDocument/inlineCompletion"@
    ||| method == "textDocument/signatureHelp"@
    ||| method == "textDocument/rename"@
    ||| method == "textDocument/prepareRename"@
    ||| method == "textDocument/prepareCallHierarchy"@
    ||| method == "textDocument/prepareTypeHierarchy"@
    ||| method == "textDocument/linkedEditingRange"@
    ||| method == "textDocument/moniker"@
    ||| method == "textDocument/onTypeFormatting"@
    ||| method == "textDocument/selectionRange"@
}

/// What is wrong with `step` on `surface`, if anything. `multi` says that the
/// step is one of several.
pub open spec fn step_error(surface: Surface, step: StepModel, multi: bool) -> Option<Seq<char>> {
    let stray = stray_fields(surface, step);
    if stray.len() > 0 {
        Some(
            "`"@ + surface_text(surface) + "` surface does not use field(s): "@ + joined(
                field_texts(stray),
                ", "@,
            ),
        )
    } else {
        match surface {
            Surface::Bunit => None,
            Surface::Run => if step.entrypoint is None {
                Some("`run` requires an `entrypoint`"@)
            } else if step.stdout is None && step.exit_code is None {
                Some("`run` requires at least one of `stdout` or `exit_code`"@)
            } else {
                None
            },
            Surface::Cli => if step.args is None {
                Some("`cli` requires an `args` key"@)
            } else {
                None
            },
            Surface::Lsp => if step.lsp_method is None {
                Some("`lsp` requires a `method` key"@)
            } else if step.source is None {
                Some("`lsp` requires a `source` key"@)
            } else if !multi && step.response_contains is None {
                Some("`lsp` requires a `response_contains` key"@)
            } else if needs_position(step.lsp_method->0) && (step.line is None || step.character is None) {
                Some("lsp method `"@ + step.lsp_method->0 + "` requires `line` and `character`"@)
            } else {
                None
            },
            Surface::Mcp => if step.tool is None {
                Some("`mcp` requires a `tool` key"@)
            } else if !multi && step.response_contains is None {
                Some("`mcp` requires a `response_contains` key"@)
            } else if step.code is Some && step.arguments is Some {
                Some("`mcp`: use either `code` or `arguments`, not both"@)
            } else {
                None
            },
        }
    }
}

/// What is wrong with the number of steps of `s`, if anything.
pub open spec fn step_count_error(s: ScenarioModel) -> Option<Seq<char>> {
    if s.steps.len() == 0 {
        Some("scenario `"@ + s.name + "` has no steps"@)
    } else if !session_backed(s.surface) && s.steps.len() != 1 {
        Some(
            "scenario `"@ + s.name + "`: `"@ + surface_text(s.surface)
                + "` surface expects exactly one step, got "@ + decimal(s.steps.len()),
        )
    } else {
        None
    }
}

/// The `expect.toml` keys set on `step` that do not belong to `surface`.
pub fn unexpected_fields(surface: Surface, step: &Step) -> (v: Vec<&'static str>)
    ensures
        strs(v@) == field_texts(stray_fields(surface, step@)),
{
    let fields = Field::all();
    let mut out: Vec<&'static str> = Vec::new();
    let ghost is_stray = |f: Field| step_sets(step@, f) && !surface_uses(surface, f);
    let mut i: usize = 0;
    proof {
        reveal(Seq::filter);
        assert(strs(out@) =~= field_texts(all_fields().take(0).filter(is_stray)));
    }
    while i < fields.len()
        invariant
            i <= fields@.len(),
            fields@ == all_fields(),
            is_stray == (|f: Field| step_sets(step@, f) && !surface_uses(surface, f)),
            strs(out@) == field_texts(all_fields().take(i as int).filter(is_stray)),
        decreases fields.len() - i,
    {
        let f = fields[i];
        let ghost before = all_fields().take(i as int).filter(is_stray);
        let ghost old_out = strs(out@);
        proof {
            reveal(Seq::filter);
            assert(all_fields().take(i + 1).drop_last() =~= all_fields().take(i as int));
            assert(all_fields().take(i + 1).last() == f);
        }
        if f.is_set(step) && !f.is_used_by(surface) {
            let name = f.name();
            out.push(name);
            proof {
                assert(is_stray(f));
                assert(strs(out@) =~= old_out.push(name@));
                assert(field_texts(before.push(f)) =~= field_texts(before).push(field_text(f)));
            }
        } else {
            assert(!is_stray(f));
        }
        i += 1;
    }
    assert(all_fields().take(i as int) =~= all_fields());
    out
}

/// Whether an LSP method takes a cursor position in its params. Outline,
/// whole-document and range requests (`documentSymbol`, `formatting`,
/// `codeAction`) do not.
pub fn lsp_needs_position(method: &str) -> (b: bool)
    ensures
        b == needs_position(method@),
{
    same(method, "textDocument/hover")
        || same(method, "textDocument/definition")
        || same(method, "textDocument/declaration")
        || same(method, "textDocument/typeDefinition")
        || same(method, "textDocument/implementation")
        || same(method, "textDocument/references")
        || same(method, "textDocument/documentHighlight")
        || same(method, "textDocument/completion")
        || same(method, "textDocument/inlineCompletion")
        || same(method, "textDocument/signatureHelp")
        || same(method, "textDocument/rename")
        || same(method, "textDocument/prepareRename")
        || same(method, "textDocument/prepareCallHierarchy")
        || same(method, "textDocument/prepareTypeHierarchy")
        || same(method, "textDocument/linkedEditingRange")
        || same(method, "textDocument/moniker")
        || same(method, "textDocument/onTypeFormatting")
        || same(method, "textDocument/selectionRange")
}

/// Validate one step's fields against its surface. `multi` is true when the
/// step is part of a multi-step sequence: there a side-effect step may omit
/// `response_contains`.
///
/// A field that belongs to another surface is an error: it would be ignored at
/// run time and quietly weaken the scenario.
pub fn validate_step(surface: Surface, step: &Step, multi: bool) -> (r: Result<(), String>)
    ensures
        verdict(r) == step_error(surface, step@, multi),
{
    let stray = unexpected_fields(surface, step);
    if stray.len() > 0 {
        assert(strs(stray@).len() == stray_fields(surface, step@).len());
        return Err(
            cat4(
                "`",
                surface_name(surface),
                "` surface does not use field(s): ",
                join_strs(&stray, ", ").as_str(),
            ),
        );
    }
    assert(strs(stray@).len() == stray_fields(surface, step@).len());
    match surface {
        Surface::Bunit => {},
        Surface::Run => {
            if step.entrypoint.is_none() {
                return Err("`run` requires an `entrypoint`".to_owned());
            }
            if step.stdout.is_none() && step.exit_code.is_none() {
                return Err("`run` requires at least one of `stdout` or `exit_code`".to_owned());
            }
        },
        Surface::Cli => {
            if step.args.is_none() {
                return Err("`cli` requires an `args` key".to_owned());
            }
        },
        Surface::Lsp => {
            match &step.lsp_method {
                None => {
                    return Err("`lsp` requires a `method` key".to_owned());
                },
                Some(method) => {
                    if step.source.is_none() {
                        return Err("`lsp` requires a `source` key".to_owned());
                    }
                    if !multi && step.response_contains.is_none() {
                        return Err("`lsp` requires a `response_contains` key".to_owned());
                    }
                    if lsp_needs_position(method.as_str()) && (step.line.is_none()
                        || step.character.is_none()) {
                        return Err(
                            cat3(
                                "lsp method `",
                                method.as_str(),
                                "` requires `line` and `character`",
                            ),
                        );
                    }
                },
            }
        },
        Surface::Mcp => {
            if step.tool.is_none() {
                return Err("`mcp` requires a `tool` key".to_owned());
            }
            if !multi && step.response_contains.is_none() {
                return Err("`mcp` requires a `response_contains` key".to_owned());
            }
            if step.code.is_some() && step.arguments.is_some() {
                return Err("`mcp`: use either `code` or `arguments`, not both".to_owned());
            }
        },
    }
    Ok(())
}

/// Guard the step counts a run relies on: every scenario has at least one step,
/// and a surface without a session (`bunit`, `run`, `cli`) has exactly one.
pub fn check_step_invariants(scenario: &Scenario) -> (r: Result<(), String>)
    ensures
        verdict(r) == step_count_error(scenario@),
{
    if scenario.steps.len() == 0 {
        return Err(cat3("scenario `", scenario.name.as_str(), "` has no steps"));
    }
    if !scenario.surface.is_session_backed() && scenario.steps.len() != 1 {
        let head = cat5(
            "scenario `",
            scenario.name.as_str(),
            "`: `",
            surface_name(scenario.surface),
            "` surface expects exactly one step, got ",
        );
        return Err(
            cat2(head.as_str(), decimal_text(scenario.steps.len() as u64).as_str()),
        );
    }
    Ok(())
}

} // verus!
