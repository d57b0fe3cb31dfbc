//! From the text of an `expect.toml` to its scenarios.
//!
//! Three shapes are accepted:
//!
//! ```toml
//! # Flat form: one scenario, one step.
//! surface = "cli"
//! args = "lint --format json"
//! exit_code = 1
//! stdout_contains = "severity"
//! ```
//!
//! ```toml
//! # Fan-out form: independent scenarios that share one fixture package. The
//! # display name of each is `<dir>/<name>`.
//! [[scenario]]
//! name = "hover"
//! surface = "lsp"
//! method = "textDocument/hover"
//! source = "src/Counter.bt"
//! line = 4
//! character = 18
//! response_contains = "Extends:"
//! ```
//!
//! ```toml
//! # Sequence form: ordered steps against one live session, on the surfaces
//! # that keep one (`lsp`, `mcp`). Here a step may go without
//! # `response_contains`: it need only not fail.
//! surface = "mcp"
//! [[step]]
//! tool = "evaluate"
//! code = "Counter spawn"
//! [[step]]
//! tool = "workspace_actors"
//! response_contains = "Counter"
//! ```

use vstd::prelude::*;

use crate::document::{entries_of, parse_document, toml_document, trees_of, Node, Tree};
use crate::scenario::decode::{
    decode_scenario, lemma_steps_are_tables, raw_at, raw_error, RawModel, RawScenario,
};
use crate::scenario::keys::{
    element_error, element_errors, file_error, find_entry, in_file, key_error, lookup,
    reject_unknown_keys, Rows,
};
use crate::scenario::model::{
    empty_step, scenario_models, session_backed, step_models, Scenario, ScenarioModel, Step, StepModel,
    Surface,
};
use crate::scenario::validate::{step_error, validate_step};
use crate::text::{cat2, cat3, cat5, decimal, decimal_text, first_error, lemma_first_error};

verus! {

// ── Model ───────────────────────────────────────────────────────────────────

/// The display name of the scenario at position `i` of the file of fixture
/// `dir`.
pub open spec fn display_name(raw: RawModel, fan_out: bool, i: int, dir: Seq<char>) -> Seq<char> {
    match raw.name {
        Some(n) => dir + "/"@ + n,
        None => if fan_out {
            dir + "/"@ + decimal(i as nat)
        } else {
            dir
        },
    }
}

/// The steps of a scenario: its `[[step]]` sequence, or its inline fields as a
/// single step.
pub open spec fn steps_of(raw: RawModel) -> Seq<StepModel> {
    if raw.step.len() == 0 {
        seq![raw.action]
    } else {
        raw.step
    }
}

/// What is wrong with each step of a scenario.
pub open spec fn step_errors(
    surface: Surface,
    steps: Seq<StepModel>,
    display: Seq<char>,
) -> spec_fn(int) -> Option<Seq<char>> {
    |i: int|
        match step_error(surface, steps[i], steps.len() > 1) {
            Some(e) => Some(
                "scenario `"@ + display + "` step "@ + decimal((i + 1) as nat) + ": "@ + e,
            ),
            None => None,
        }
}

/// The variant name of a surface.
pub open spec fn variant_text(s: Surface) -> Seq<char> {
    match s {
        Surface::Bunit => "Bunit"@,
        Surface::Run => "Run"@,
        Surface::Cli => "Cli"@,
        Surface::Lsp => "Lsp"@,
        Surface::Mcp => "Mcp"@,
    }
}

/// What is wrong with a scenario as written, if anything.
pub open spec fn scenario_error(raw: RawModel, display: Seq<char>) -> Option<Seq<char>> {
    if raw.step.len() > 0 && raw.action != empty_step() {
        Some(
            "scenario `"@ + display
                + "`: set either top-level step fields or `[[step]]`, not both"@,
        )
    } else if raw.step.len() > 0 && !session_backed(raw.surface) {
        Some(
            "scenario `"@ + display
                + "`: `[[step]]` sequences require a session-backed surface (`lsp` or `mcp`); `"@
                + variant_text(raw.surface)
                + "` spawns a fresh process per step with no shared state"@,
        )
    } else {
        let steps = steps_of(raw);
        first_error(steps.len() as int, 0, step_errors(raw.surface, steps, display))
    }
}

/// The scenario that stands at position `i` of the file of fixture `dir`.
pub open spec fn scenario_at(
    raw: RawModel,
    fan_out: bool,
    i: int,
    dir: Seq<char>,
    project_dir: Seq<char>,
) -> ScenarioModel {
    ScenarioModel {
        name: display_name(raw, fan_out, i, dir),
        dir_name: dir,
        project_dir,
        surface: raw.surface,
        steps: steps_of(raw),
    }
}

/// Whether a document lists its scenarios in a `scenario` array.
pub open spec fn fans_out(doc: Tree) -> bool {
    lookup(doc->Table_0, "scenario"@) is Some
}

/// The tables of the scenarios of a document: those of the `scenario` array, or
/// the document itself.
pub open spec fn scenario_tables(doc: Tree) -> Seq<Rows> {
    match lookup(doc->Table_0, "scenario"@) {
        Some(v) => v->Array_0.map_values(|x: Tree| x->Table_0),
        None => seq![doc->Table_0],
    }
}

/// Where the tables of the scenarios stand in the document.
pub open spec fn scenario_base(doc: Tree) -> Seq<char> {
    if fans_out(doc) {
        "scenario"@
    } else {
        ""@
    }
}

/// What is wrong with the values of each table.
pub open spec fn raw_errors(tables: Seq<Rows>, base: Seq<char>) -> spec_fn(int) -> Option<Seq<char>> {
    |i: int| raw_error(tables[i], base)
}

/// What is wrong with each scenario as written.
pub open spec fn scenario_errors(
    tables: Seq<Rows>,
    fan_out: bool,
    dir: Seq<char>,
) -> spec_fn(int) -> Option<Seq<char>> {
    |i: int| scenario_error(raw_at(tables[i]), display_name(raw_at(tables[i]), fan_out, i, dir))
}

/// The scenarios of a document, or what is wrong with it.
pub open spec fn scenarios_of(doc: Tree, dir: Seq<char>, project_dir: Seq<char>) -> Result<
    Seq<ScenarioModel>,
    Seq<char>,
> {
    match key_error(doc, dir) {
        Some(e) => Err(e),
        None => {
            let tables = scenario_tables(doc);
            let n = tables.len() as int;
            match first_error(n, 0, raw_errors(tables, scenario_base(doc))) {
                Some(e) => Err(in_file(dir, e)),
                None => if n == 0 {
                    Err(in_file(dir, "`[[scenario]]` array is empty"@))
                } else {
                    match first_error(n, 0, scenario_errors(tables, fans_out(doc), dir)) {
                        Some(e) => Err(e),
                        None => Ok(
                            Seq::new(
                                tables.len(),
                                |i: int|
                                    scenario_at(raw_at(tables[i]), fans_out(doc), i, dir, project_dir),
                            ),
                        ),
                    }
                },
            }
        },
    }
}

/// The scenarios of the text of an `expect.toml`, or what is wrong with it.
pub open spec fn scenarios_of_text(text: Seq<char>, dir: Seq<char>, project_dir: Seq<char>) -> Result<
    Seq<ScenarioModel>,
    Seq<char>,
> {
    match toml_document(text) {
        Ok(doc) => scenarios_of(doc, dir, project_dir),
        Err(e) => Err(in_file(dir, "invalid TOML: "@ + e)),
    }
}

/// What a parse gave: the scenarios, or the text of the error.
pub open spec fn parse_outcome(r: Result<Vec<Scenario>, String>) -> Result<
    Seq<ScenarioModel>,
    Seq<char>,
> {
    match r {
        Ok(v) => Ok(scenario_models(v@)),
        Err(e) => Err(e@),
    }
}

// ── Parsing ─────────────────────────────────────────────────────────────────

/// The variant name of a surface.
fn variant_name(s: Surface) -> (r: &'static str)
    ensures
        r@ == variant_text(s),
{
    match s {
        Surface::Bunit => "Bunit",
        Surface::Run => "Run",
        Surface::Cli => "Cli",
        Surface::Lsp => "Lsp",
        Surface::Mcp => "Mcp",
    }
}

/// The display name of a scenario.
fn name_for_display(raw: &RawScenario, fan_out: bool, i: usize, dir_name: &str) -> (r: String)
    ensures
        r@ == display_name(raw@, fan_out, i as int, dir_name@),
{
    match &raw.name {
        Some(n) => cat3(dir_name, "/", n.as_str()),
        None => if fan_out {
            cat3(dir_name, "/", decimal_text(i as u64).as_str())
        } else {
            dir_name.to_owned()
        },
    }
}

/// Turns a scenario as written into one that is ready to be driven.
pub fn build_scenario(
    raw: RawScenario,
    fan_out: bool,
    i: usize,
    dir_name: &str,
    project_dir: &str,
) -> (r: Result<Scenario, String>)
    ensures
        match r {
            Ok(s) => {
                &&& scenario_error(raw@, display_name(raw@, fan_out, i as int, dir_name@)) is None
                &&& s@ == scenario_at(raw@, fan_out, i as int, dir_name@, project_dir@)
            },
            Err(e) => scenario_error(raw@, display_name(raw@, fan_out, i as int, dir_name@)) == Some(
                e@,
            ),
        },
{
    let display = name_for_display(&raw, fan_out, i, dir_name);
    let ghost model = raw@;
    let surface = raw.surface;
    let steps: Vec<Step> = if raw.step.len() == 0 {
        let one = vec![raw.action];
        assert(step_models(one@) =~= seq![model.action]);
        one
    } else {
        if !raw.action.is_empty() {
            return Err(
                cat3(
                    "scenario `",
                    display.as_str(),
                    "`: set either top-level step fields or `[[step]]`, not both",
                ),
            );
        }
        if !surface.is_session_backed() {
            return Err(
                cat5(
                    "scenario `",
                    display.as_str(),
                    "`: `[[step]]` sequences require a session-backed surface (`lsp` or `mcp`); `",
                    variant_name(surface),
                    "` spawns a fresh process per step with no shared state",
                ),
            );
        }
        raw.step
    };
    let multi = steps.len() > 1;
    let ghost errors = step_errors(surface, step_models(steps@), display@);
    let mut k: usize = 0;
    while k < steps.len()
        invariant
            k <= steps@.len(),
            multi == (steps@.len() > 1),
            model == raw@,
            surface == model.surface,
            step_models(steps@) == steps_of(model),
            display@ == display_name(model, fan_out, i as int, dir_name@),
            errors == step_errors(surface, step_models(steps@), display@),
            scenario_error(model, display@) == first_error(steps@.len() as int, 0, errors),
            first_error(steps@.len() as int, k as int, errors) == first_error(
                steps@.len() as int,
                0,
                errors,
            ),
        decreases steps.len() - k,
    {
        assert(step_models(steps@)[k as int] == steps@[k as int]@);
        match validate_step(surface, &steps[k], multi) {
            Ok(_) => {},
            Err(e) => {
                let head = cat5(
                    "scenario `",
                    display.as_str(),
                    "` step ",
                    decimal_text(k as u64 + 1).as_str(),
                    ": ",
                );
                return Err(cat2(head.as_str(), e.as_str()));
            },
        }
        k += 1;
    }
    Ok(
        Scenario {
            name: display,
            dir_name: dir_name.to_owned(),
            project_dir: project_dir.to_owned(),
            surface,
            steps,
        },
    )
}

/// What each of `v` says.
pub open spec fn raw_models(v: Seq<RawScenario>) -> Seq<RawModel> {
    v.map_values(|r: RawScenario| r@)
}

/// What each of the tables says.
pub open spec fn raws_at(tables: Seq<Rows>) -> Seq<RawModel> {
    tables.map_values(|t: Rows| raw_at(t))
}

/// Decodes the elements of a `scenario` array.
fn decode_array(a: &Vec<Node>, base: &str) -> (r: Result<Vec<RawScenario>, String>)
    requires
        exists|dir: Seq<char>| #[trigger]
            first_error(a@.len() as int, 0, element_errors(trees_of(a@), dir)) is None,
    ensures
        ({
            let tables = trees_of(a@).map_values(|x: Tree| x->Table_0);
            match r {
                Ok(v) => {
                    &&& first_error(a@.len() as int, 0, raw_errors(tables, base@)) is None
                    &&& raw_models(v@) == raws_at(tables)
                },
                Err(e) => first_error(a@.len() as int, 0, raw_errors(tables, base@)) == Some(e@),
            }
        }),
{
    let ghost items = trees_of(a@);
    let ghost tables = items.map_values(|x: Tree| x->Table_0);
    let ghost errors = raw_errors(tables, base@);
    let ghost dir = choose|dir: Seq<char>| #[trigger]
        first_error(a@.len() as int, 0, element_errors(items, dir)) is None;
    proof {
        lemma_first_error(a@.len() as int, 0, element_errors(items, dir));
    }
    let mut out: Vec<RawScenario> = Vec::new();
    let mut i: usize = 0;
    while i < a.len()
        invariant
            i <= a@.len(),
            items == trees_of(a@),
            tables == items.map_values(|x: Tree| x->Table_0),
            errors == raw_errors(tables, base@),
            forall|k: int|
                0 <= k < a@.len() ==> (#[trigger] element_errors(items, dir)(k)) is None,
            raw_models(out@) == raws_at(tables).take(i as int),
            first_error(tables.len() as int, i as int, errors) == first_error(
                tables.len() as int,
                0,
                errors,
            ),
        decreases a.len() - i,
    {
        proof {
            assert(items[i as int] == a@[i as int]@);
            assert(element_errors(items, dir)(i as int) is None);
            assert(element_error(items[i as int], dir) is None);
        }
        match &a[i] {
            Node::Table(t) => {
                proof {
                    lemma_steps_are_tables(entries_of(t@), dir);
                    assert(tables[i as int] == entries_of(t@));
                }
                match decode_scenario(t, base) {
                    Ok(raw) => {
                        let ghost before = raw_models(out@);
                        out.push(raw);
                        assert(raw_models(out@) =~= before.push(raw@));
                        assert(raws_at(tables).take(i + 1) =~= before.push(raw@));
                    },
                    Err(e) => {
                        return Err(e);
                    },
                }
            },
            _ => {
                assert(false);
            },
        }
        i += 1;
    }
    assert(raws_at(tables).take(i as int) =~= raws_at(tables));
    Ok(out)
}

/// Builds the scenarios of a file.
fn build_all(raws: Vec<RawScenario>, fan_out: bool, dir_name: &str, project_dir: &str, Ghost(tables): Ghost<Seq<Rows>>) -> (r: Result<
    Vec<Scenario>,
    String,
>)
    requires
        raw_models(raws@) == raws_at(tables),
    ensures
        ({
            let n = tables.len() as int;
            match r {
                Ok(v) => {
                    &&& first_error(n, 0, scenario_errors(tables, fan_out, dir_name@)) is None
                    &&& scenario_models(v@) == Seq::new(
                        tables.len(),
                        |i: int| scenario_at(raw_at(tables[i]), fan_out, i, dir_name@, project_dir@),
                    )
                },
                Err(e) => first_error(n, 0, scenario_errors(tables, fan_out, dir_name@)) == Some(e@),
            }
        }),
{
    let ghost errors = scenario_errors(tables, fan_out, dir_name@);
    let ghost want = Seq::new(
        tables.len(),
        |i: int| scenario_at(raw_at(tables[i]), fan_out, i, dir_name@, project_dir@),
    );
    let mut out: Vec<Scenario> = Vec::new();
    assert(raw_models(raws@).len() == raws@.len());
    assert(raws_at(tables).len() == tables.len());
    for raw in it: raws
        invariant
            it.seq() == raws@,
            raw_models(raws@) == raws_at(tables),
            raws@.len() == tables.len(),
            out@.len() == it.index(),
            errors == scenario_errors(tables, fan_out, dir_name@),
            want == Seq::new(
                tables.len(),
                |i: int| scenario_at(raw_at(tables[i]), fan_out, i, dir_name@, project_dir@),
            ),
            scenario_models(out@) == want.take(it.index() as int),
            first_error(tables.len() as int, it.index() as int, errors) == first_error(
                tables.len() as int,
                0,
                errors,
            ),
    {
        let i = out.len();
        proof {
            assert(raw_models(raws@)[i as int] == raw@);
            assert(raws_at(tables)[i as int] == raw_at(tables[i as int]));
        }
        match build_scenario(raw, fan_out, i, dir_name, project_dir) {
            Ok(s) => {
                let ghost before = scenario_models(out@);
                out.push(s);
                assert(scenario_models(out@) =~= before.push(s@));
                assert(want.take(i + 1) =~= before.push(s@));
            },
            Err(e) => {
                return Err(e);
            },
        }
    }
    assert(want.take(want.len() as int) =~= want);
    Ok(out)
}

/// The scenarios of a parsed `expect.toml`, for the fixture `dir_name`.
pub fn parse_expect_value(value: &Node, dir_name: &str, project_dir: &str) -> (r: Result<
    Vec<Scenario>,
    String,
>)
    ensures
        parse_outcome(r) == scenarios_of(value@, dir_name@, project_dir@),
{
    match reject_unknown_keys(value, dir_name) {
        Ok(_) => {},
        Err(e) => {
            return Err(e);
        },
    }
    let ghost doc = value@;
    match value {
        Node::Table(t) => match find_entry(t, "scenario") {
            Some(Node::Array(a)) => {
                let ghost tables = scenario_tables(doc);
                assert(first_error(a@.len() as int, 0, element_errors(trees_of(a@), dir_name@)) is None);
                match decode_array(a, "scenario") {
                    Err(e) => Err(file_error(dir_name, e.as_str())),
                    Ok(raws) => {
                        if raws.len() == 0 {
                            assert(raw_models(raws@).len() == raws_at(tables).len());
                            return Err(file_error(dir_name, "`[[scenario]]` array is empty"));
                        }
                        assert(raw_models(raws@).len() == raws_at(tables).len());
                        build_all(raws, true, dir_name, project_dir, Ghost(tables))
                    },
                }
            },
            _ => {
                let ghost tables = scenario_tables(doc);
                proof {
                    lemma_steps_are_tables(entries_of(t@), dir_name@);
                    assert(tables =~= seq![entries_of(t@)]);
                    reveal_with_fuel(first_error, 2);
                    reveal_strlit("");
                    assert(""@.len() == 0);
                }
                match decode_scenario(t, "") {
                    Err(e) => Err(file_error(dir_name, e.as_str())),
                    Ok(raw) => {
                        let raws = vec![raw];
                        assert(raw_models(raws@) =~= raws_at(tables));
                        build_all(raws, false, dir_name, project_dir, Ghost(tables))
                    },
                }
            },
        },
        _ => Err(file_error(dir_name, "expect.toml must be a table")),
    }
}

/// Parse one `expect.toml`'s text into its scenarios.
pub fn parse_expect_text(text: &str, dir_name: &str, project_dir: &str) -> (r: Result<
    Vec<Scenario>,
    String,
>)
    ensures
        parse_outcome(r) == scenarios_of_text(text@, dir_name@, project_dir@),
{
    match parse_document(text) {
        Ok(value) => parse_expect_value(&value, dir_name, project_dir),
        Err(e) => Err(file_error(dir_name, cat2("invalid TOML: ", e.as_str()).as_str())),
    }
}

} // verus!
