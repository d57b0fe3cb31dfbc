//! What holds of every parsed and every discovered scenario.

use vstd::prelude::*;

use crate::document::{toml_document, Tree};
use crate::output::{success, OutputModel};
use crate::scenario::decode::raw_at;
use crate::scenario::discover::{
    ascending, discovered, fixture_name, found_errors, found_outcome, gathered, names_of, Found,
};
use crate::scenario::expect::{
    display_name, fans_out, scenario_at, scenario_errors, scenario_tables, scenarios_of, scenarios_of_text,
    step_errors, steps_of,
};
use crate::scenario::keys::{
    element_errors, key_error, lookup, scenario_key, scenario_shape_error, step_key, step_shape_errors,
    top_level_errors, unknown_scenario_keys, unknown_step_keys, Rows,
};
use crate::scenario::model::{
    all_fields, scenario_models, step_sets, surface_uses, Field, Scenario, ScenarioModel, Surface,
};
use crate::scenario::lsp_run::lsp_response_error;
use crate::scenario::mcp_run::mcp_response_error;
use crate::scenario::normalize::normalized;
use crate::scenario::outcome::ready;
use crate::scenario::process::{
    actual_code, bunit_error, cli_error, cli_expected_code, none_failed, run_error,
};
use crate::scenario::validate::{step_count_error, step_error, stray_fields};
use crate::text::{lemma_first_error, lemma_less_irreflexive, lemma_less_transitive, occurs, text_less};
use crate::text_laws::law_first_error;

verus! {

// ── Parsing ─────────────────────────────────────────────────────────────────

/// Whether a scenario is sound: its step count is in order, and so is each of
/// its steps.
pub open spec fn sound(s: ScenarioModel) -> bool {
    &&& step_count_error(s) is None
    &&& forall|k: int|
        0 <= k < s.steps.len() ==> (step_error(s.surface, #[trigger] s.steps[k], s.steps.len() > 1) is None)
}

/// Every scenario of a document is sound: it has at least one step, exactly one
/// unless its surface keeps a session, and every step says what its surface
/// needs. There is at least one scenario, and each belongs to the fixture.
pub proof fn law_parsed_is_sound(doc: Tree, dir: Seq<char>, project_dir: Seq<char>)
    requires
        scenarios_of(doc, dir, project_dir) is Ok,
    ensures
        ({
            let v = scenarios_of(doc, dir, project_dir)->Ok_0;
            &&& v.len() > 0
            &&& v.len() == scenario_tables(doc).len()
            &&& forall|i: int| 0 <= i < v.len() ==> sound(#[trigger] v[i])
            &&& forall|i: int|
                0 <= i < v.len() ==> (#[trigger] v[i]).dir_name == dir && v[i].project_dir == project_dir
        }),
{
    let v = scenarios_of(doc, dir, project_dir)->Ok_0;
    let tables = scenario_tables(doc);
    let n = tables.len() as int;
    let errors = scenario_errors(tables, fans_out(doc), dir);
    lemma_first_error(n, 0, errors);
    assert forall|i: int| 0 <= i < v.len() implies sound(#[trigger] v[i]) by {
        let raw = raw_at(tables[i]);
        let display = display_name(raw, fans_out(doc), i, dir);
        assert(errors(i) is None);
        let steps = steps_of(raw);
        let f = step_errors(raw.surface, steps, display);
        lemma_first_error(steps.len() as int, 0, f);
        assert(v[i] == scenario_at(raw, fans_out(doc), i, dir, project_dir));
        assert forall|k: int| 0 <= k < steps.len() implies (step_error(
            raw.surface,
            #[trigger] steps[k],
            steps.len() > 1,
        ) is None) by {
            assert(f(k) is None);
        }
    }
}

/// Whatever a sound step sets, its surface uses.
pub proof fn law_no_stray_fields(s: ScenarioModel, k: int, f: Field)
    requires
        sound(s),
        0 <= k < s.steps.len(),
        step_sets(s.steps[k], f),
    ensures
        surface_uses(s.surface, f),
{
    let step = s.steps[k];
    assert(step_error(s.surface, step, s.steps.len() > 1) is None);
    if !surface_uses(s.surface, f) {
        let stray = |g: Field| step_sets(step, g) && !surface_uses(s.surface, g);
        lemma_all_fields(f);
        let i = choose|i: int| 0 <= i < all_fields().len() && all_fields()[i] == f;
        lemma_filter_keeps(all_fields(), stray, i);
        assert(stray_fields(s.surface, step).len() > 0);
    }
}

/// Every key is in the list of keys.
proof fn lemma_all_fields(f: Field)
    ensures
        exists|i: int| 0 <= i < all_fields().len() && #[trigger] all_fields()[i] == f,
{
    let i: int = match f {
        Field::Entrypoint => 0,
        Field::Args => 1,
        Field::Setup => 2,
        Field::Cwd => 3,
        Field::Stdout => 4,
        Field::StdoutContains => 5,
        Field::StderrContains => 6,
        Field::ExitCode => 7,
        Field::Method => 8,
        Field::Source => 9,
        Field::Line => 10,
        Field::Character => 11,
        Field::ResponseContains => 12,
        Field::Tool => 13,
        Field::Code => 14,
        Field::Arguments => 15,
    };
    assert(all_fields()[i] == f);
}

/// What passes a filter is left.
proof fn lemma_filter_keeps(v: Seq<Field>, p: spec_fn(Field) -> bool, i: int)
    requires
        0 <= i < v.len(),
        p(v[i]),
    ensures
        v.filter(p).len() > 0,
    decreases v.len(),
{
    reveal(Seq::filter);
    if i < v.len() - 1 {
        lemma_filter_keeps(v.drop_last(), p, i);
    }
}

/// A sound scenario says all that driving it needs: no run of a parsed scenario
/// meets a missing field.
pub proof fn law_sound_is_ready(s: ScenarioModel)
    requires
        sound(s),
        s.steps.len() < i64::MAX,
    ensures
        ready(s),
{
    assert(step_error(s.surface, s.steps[0], s.steps.len() > 1) is None);
    if s.surface is Lsp || s.surface is Mcp {
        assert forall|i: int| 0 <= i < s.steps.len() implies (step_error(
            s.surface,
            #[trigger] s.steps[i],
            s.steps.len() > 1,
        ) is None) by {}
    }
}

/// A scenario of one step passes only where what the step gave was compared with
/// something: `bunit` with a report of passed tests and of none failed, `run`
/// with the exit code or the output that it asserts, `cli` with an exit code,
/// `lsp` and `mcp` with a substring.
pub proof fn law_single_step_asserts(s: ScenarioModel, out: OutputModel, response: Seq<char>)
    requires
        sound(s),
        s.steps.len() == 1,
    ensures
        ({
            let step = s.steps[0];
            match s.surface {
                Surface::Bunit => bunit_error(s.name, out) is None ==> success(out.code) && none_failed(out.stdout)
                    && occurs(out.stdout, "passed"@),
                Surface::Run => {
                    &&& step.stdout is Some || step.exit_code is Some
                    &&& run_error(s.name, step, out) is None ==> {
                        &&& step.stdout is Some ==> normalized(out.stdout) == normalized(step.stdout->0)
                        &&& step.exit_code is Some ==> actual_code(out.code) == step.exit_code->0
                    }
                },
                Surface::Cli => cli_error(s.name, step, out) is None ==> actual_code(out.code) == cli_expected_code(
                    step,
                ),
                Surface::Lsp => {
                    &&& step.response_contains is Some
                    &&& lsp_response_error(s, 0, response) is None ==> occurs(response, step.response_contains->0)
                },
                Surface::Mcp => {
                    &&& step.response_contains is Some
                    &&& mcp_response_error(s, 0, response) is None ==> occurs(response, step.response_contains->0)
                },
            }
        }),
{
    assert(step_error(s.surface, s.steps[0], s.steps.len() > 1) is None);
}

/// Whether all keys of a scenario's table, and of its steps, are known.
pub open spec fn known_keys(t: Rows) -> bool {
    &&& forall|i: int| 0 <= i < t.len() ==> scenario_key((#[trigger] t[i]).0)
    &&& match lookup(t, "step"@) {
        None => true,
        Some(v) => v matches Tree::Array(a) && forall|i: int|
            0 <= i < a.len() ==> known_step_keys(#[trigger] a[i]),
    }
}

/// Whether all keys of a step's table are known.
pub open spec fn known_step_keys(v: Tree) -> bool {
    v matches Tree::Table(t) && forall|i: int| 0 <= i < t.len() ==> step_key((#[trigger] t[i]).0)
}

/// No unknown key passes: every key of a document that parses is one that has a
/// meaning where it stands, so that no misspelt assertion is dropped in
/// silence.
pub proof fn law_no_unknown_keys(doc: Tree, dir: Seq<char>, project_dir: Seq<char>)
    requires
        scenarios_of(doc, dir, project_dir) is Ok,
    ensures
        forall|i: int| 0 <= i < scenario_tables(doc).len() ==> known_keys(#[trigger] scenario_tables(doc)[i]),
        fans_out(doc) ==> forall|i: int|
            0 <= i < doc->Table_0.len() ==> (#[trigger] doc->Table_0[i]).0 == "scenario"@,
{
    let t = doc->Table_0;
    assert(key_error(doc, dir) is None);
    if fans_out(doc) {
        let top = top_level_errors(t, dir);
        lemma_first_error(t.len() as int, 0, top);
        assert forall|i: int| 0 <= i < t.len() implies (#[trigger] t[i]).0 == "scenario"@ by {
            assert(top(i) is None);
        }
        let a = lookup(t, "scenario"@)->0->Array_0;
        let f = element_errors(a, dir);
        lemma_first_error(a.len() as int, 0, f);
        assert forall|i: int| 0 <= i < scenario_tables(doc).len() implies known_keys(
            #[trigger] scenario_tables(doc)[i],
        ) by {
            assert(f(i) is None);
            lemma_known_keys(a[i]->Table_0, dir);
        }
    } else {
        lemma_known_keys(t, dir);
    }
}

/// A scenario's table whose shape is in order has known keys only.
proof fn lemma_known_keys(t: Rows, dir: Seq<char>)
    requires
        scenario_shape_error(t, dir) is None,
    ensures
        known_keys(t),
{
    let f = unknown_scenario_keys(t, dir);
    lemma_first_error(t.len() as int, 0, f);
    assert forall|i: int| 0 <= i < t.len() implies scenario_key((#[trigger] t[i]).0) by {
        assert(f(i) is None);
    }
    match lookup(t, "step"@) {
        Some(Tree::Array(a)) => {
            let g = step_shape_errors(a, dir);
            lemma_first_error(a.len() as int, 0, g);
            assert forall|i: int| 0 <= i < a.len() implies known_step_keys(#[trigger] a[i]) by {
                assert(g(i) is None);
                let rows = a[i]->Table_0;
                let h = unknown_step_keys(rows, dir);
                lemma_first_error(rows.len() as int, 0, h);
                assert forall|j: int| 0 <= j < rows.len() implies step_key((#[trigger] rows[j]).0) by {
                    assert(h(j) is None);
                }
            }
        },
        _ => {},
    }
}

// ── Discovery ───────────────────────────────────────────────────────────────

/// All that is gathered from fixtures that parse is sound.
proof fn lemma_gathered_sound(v: Seq<Found>)
    requires
        forall|i: int| 0 <= i < v.len() ==> (#[trigger] found_outcome(v[i])) is Ok,
    ensures
        forall|s: ScenarioModel| #[trigger] gathered(v).contains(s) ==> sound(s),
    decreases v.len(),
{
    if v.len() > 0 {
        let init = v.drop_last();
        assert forall|i: int| 0 <= i < init.len() implies (#[trigger] found_outcome(init[i])) is Ok by {
            assert(found_outcome(v[i]) is Ok);
        }
        lemma_gathered_sound(init);
        let last = found_outcome(v[v.len() - 1])->Ok_0;
        assert(found_outcome(v[v.len() - 1]) is Ok);
        match v.last() {
            Found::Fixture { dir_name, project_dir, text } => {
                let dir = fixture_name(dir_name);
                law_parsed_is_sound(toml_document(text@)->Ok_0, dir, project_dir@);
            },
            _ => {},
        }
        assert forall|s: ScenarioModel| #[trigger] gathered(v).contains(s) implies sound(s) by {
            let k = choose|k: int| 0 <= k < gathered(v).len() && gathered(v)[k] == s;
            if k < gathered(init).len() {
                assert(gathered(init)[k] == s);
                assert(gathered(init).contains(s));
            } else {
                assert(last[k - gathered(init).len()] == s);
            }
        }
    }
}

/// What is discovered is sound, sorted by name, and no two scenarios have the
/// same name; and each entry's scenarios are all there.
pub proof fn law_discovered_is_sound(projects_dir: Seq<char>, found: Vec<Found>, r: Result<Vec<Scenario>, String>)
    requires
        discovered(projects_dir, Ok(found), r),
        r is Ok,
    ensures
        ({
            let v = scenario_models(r->Ok_0@);
            &&& forall|i: int| 0 <= i < v.len() ==> sound(#[trigger] v[i])
            &&& ascending(names_of(v))
            &&& names_of(v).no_duplicates()
            &&& v.to_multiset() == gathered(found@).to_multiset()
        }),
{
    let v = scenario_models(r->Ok_0@);
    let all = gathered(found@);
    let errors = found_errors(found@);
    lemma_first_error(found@.len() as int, 0, errors);
    assert forall|i: int| 0 <= i < found@.len() implies (#[trigger] found_outcome(found@[i])) is Ok by {
        assert(errors(i) is None);
    }
    lemma_gathered_sound(found@);
    assert forall|i: int| 0 <= i < v.len() implies sound(#[trigger] v[i]) by {
        broadcast use vstd::seq_lib::group_to_multiset_ensures;

        assert(v.contains(v[i]));
        assert(v.to_multiset().contains(v[i]));
        assert(all.to_multiset().contains(v[i]));
        assert(all.contains(v[i]));
    }
    let names = names_of(v);
    assert forall|i: int, j: int| 0 <= i < names.len() && 0 <= j < names.len() && i != j implies names[i]
        != names[j] by {
        lemma_less_irreflexive(names[i]);
        if i < j {
            assert(text_less(names[i], names[j]));
        } else {
            assert(text_less(names[j], names[i]));
        }
    }
}

/// Two ascending lists of the same scenarios are the same list.
proof fn lemma_ascending_unique(a: Seq<ScenarioModel>, b: Seq<ScenarioModel>)
    requires
        ascending(names_of(a)),
        ascending(names_of(b)),
        a.to_multiset() == b.to_multiset(),
    ensures
        a == b,
    decreases a.len(),
{
    broadcast use vstd::seq_lib::group_to_multiset_ensures;

    assert(a.len() == a.to_multiset().len());
    assert(b.len() == b.to_multiset().len());
    if a.len() == 0 {
        assert(a =~= b);
    } else {
        let n = a.len() - 1;
        let x = a[n];
        let y = b[n];
        assert(a.contains(x) && b.contains(y));
        assert(b.to_multiset().contains(x) && a.to_multiset().contains(y));
        assert(b.contains(x) && a.contains(y));
        let j = choose|j: int| 0 <= j < b.len() && b[j] == x;
        let k = choose|k: int| 0 <= k < a.len() && a[k] == y;
        if j < n {
            assert(text_less(names_of(b)[j], names_of(b)[n]));
            lemma_less_irreflexive(x.name);
            if k < n {
                assert(text_less(names_of(a)[k], names_of(a)[n]));
                lemma_less_transitive(x.name, y.name, x.name);
            }
        }
        assert(x == y);
        let p = a.drop_last();
        let q = b.drop_last();
        assert(a =~= p.push(x));
        assert(b =~= q.push(x));
        assert(p.to_multiset() =~= a.to_multiset().remove(x));
        assert(q.to_multiset() =~= b.to_multiset().remove(x));
        assert forall|i: int, l: int| 0 <= i < l < names_of(p).len() implies text_less(
            #[trigger] names_of(p)[i],
            #[trigger] names_of(p)[l],
        ) by {
            assert(text_less(names_of(a)[i], names_of(a)[l]));
        }
        assert forall|i: int, l: int| 0 <= i < l < names_of(q).len() implies text_less(
            #[trigger] names_of(q)[i],
            #[trigger] names_of(q)[l],
        ) by {
            assert(text_less(names_of(b)[i], names_of(b)[l]));
        }
        lemma_ascending_unique(p, q);
    }
}

/// The order in which the fixtures are found makes no difference: two listings
/// that hold the same scenarios give the same list.
pub proof fn law_discovery_is_deterministic(
    projects_dir: Seq<char>,
    one: Vec<Found>,
    r: Result<Vec<Scenario>, String>,
    two: Vec<Found>,
    q: Result<Vec<Scenario>, String>,
)
    requires
        discovered(projects_dir, Ok(one), r),
        discovered(projects_dir, Ok(two), q),
        gathered(one@).to_multiset() == gathered(two@).to_multiset(),
        r is Ok,
        q is Ok,
    ensures
        scenario_models(r->Ok_0@) == scenario_models(q->Ok_0@),
{
    lemma_ascending_unique(scenario_models(r->Ok_0@), scenario_models(q->Ok_0@));
}

/// Discovery succeeds if and only if every entry could be read, every fixture's
/// text is accepted, and no two scenarios have one name. Entries that are no
/// fixtures do not count.
pub proof fn law_discovery_succeeds(projects_dir: Seq<char>, found: Vec<Found>, r: Result<Vec<Scenario>, String>)
    requires
        discovered(projects_dir, Ok(found), r),
    ensures
        r is Ok <==> {
            &&& forall|i: int|
                0 <= i < found@.len() ==> match #[trigger] found@[i] {
                    Found::Lost { error: _ } => false,
                    Found::Unreadable { path: _, error: _ } => false,
                    Found::Other => true,
                    Found::Fixture { dir_name, project_dir, text } => scenarios_of_text(
                        text@,
                        match dir_name {
                            Some(n) => n@,
                            None => "unknown"@,
                        },
                        project_dir@,
                    ) is Ok,
                }
            &&& names_of(gathered(found@)).no_duplicates()
        },
{
    let errors = found_errors(found@);
    lemma_first_error(found@.len() as int, 0, errors);
    assert forall|i: int| 0 <= i < found@.len() implies ((#[trigger] errors(i)) is None <==> match found@[i] {
        Found::Lost { error: _ } => false,
        Found::Unreadable { path: _, error: _ } => false,
        Found::Other => true,
        Found::Fixture { dir_name, project_dir, text } => scenarios_of_text(
            text@,
            match dir_name {
                Some(n) => n@,
                None => "unknown"@,
            },
            project_dir@,
        ) is Ok,
    }) by {}
    if r is Ok {
        assert forall|i: int| 0 <= i < found@.len() implies match #[trigger] found@[i] {
            Found::Lost { error: _ } => false,
            Found::Unreadable { path: _, error: _ } => false,
            Found::Other => true,
            Found::Fixture { dir_name, project_dir, text } => scenarios_of_text(
                text@,
                match dir_name {
                    Some(n) => n@,
                    None => "unknown"@,
                },
                project_dir@,
            ) is Ok,
        } by {
            assert(errors(i) is None);
        }
    }
}

/// Whether `s` is one of the scenarios of a fixture that was found.
pub open spec fn of_fixture(f: Found, s: ScenarioModel) -> bool {
    match f {
        Found::Fixture { dir_name, project_dir, text } => scenarios_of_text(
            text@,
            match dir_name {
                Some(n) => n@,
                None => "unknown"@,
            },
            project_dir@,
        )->Ok_0.contains(s),
        _ => false,
    }
}

/// What is gathered are the scenarios of the fixtures.
proof fn lemma_gathered(v: Seq<Found>, s: ScenarioModel)
    requires
        forall|i: int| 0 <= i < v.len() ==> (#[trigger] found_outcome(v[i])) is Ok,
    ensures
        gathered(v).contains(s) <==> exists|i: int| 0 <= i < v.len() && of_fixture(#[trigger] v[i], s),
    decreases v.len(),
{
    if v.len() > 0 {
        let init = v.drop_last();
        let n = v.len() - 1;
        assert forall|i: int| 0 <= i < init.len() implies (#[trigger] found_outcome(init[i])) is Ok by {
            assert(found_outcome(v[i]) is Ok);
        }
        lemma_gathered(init, s);
        assert(found_outcome(v[n]) is Ok);
        let last = found_outcome(v[n])->Ok_0;
        assert(last.contains(s) <==> of_fixture(v[n], s));
        let all = gathered(v);
        if all.contains(s) {
            let k = choose|k: int| 0 <= k < all.len() && all[k] == s;
            if k < gathered(init).len() {
                assert(gathered(init)[k] == s);
                let i = choose|i: int| 0 <= i < init.len() && of_fixture(#[trigger] init[i], s);
                assert(of_fixture(v[i], s));
            } else {
                assert(last[k - gathered(init).len()] == s);
                assert(of_fixture(v[n], s));
            }
        }
        if exists|i: int| 0 <= i < v.len() && of_fixture(#[trigger] v[i], s) {
            let i = choose|i: int| 0 <= i < v.len() && of_fixture(#[trigger] v[i], s);
            if i < n {
                assert(of_fixture(init[i], s));
                let k = choose|k: int| 0 <= k < gathered(init).len() && gathered(init)[k] == s;
                assert(all[k] == s);
            } else {
                let k = choose|k: int| 0 <= k < last.len() && last[k] == s;
                assert(all[gathered(init).len() + k] == s);
            }
        }
    }
}

/// What is discovered are the scenarios of the fixtures that were found, each of
/// them, and no others.
pub proof fn law_discovers_every_fixture(
    projects_dir: Seq<char>,
    found: Vec<Found>,
    r: Result<Vec<Scenario>, String>,
    s: ScenarioModel,
)
    requires
        discovered(projects_dir, Ok(found), r),
        r is Ok,
    ensures
        scenario_models(r->Ok_0@).contains(s) <==> exists|i: int|
            0 <= i < found@.len() && of_fixture(#[trigger] found@[i], s),
{
    broadcast use vstd::seq_lib::group_to_multiset_ensures;

    let errors = found_errors(found@);
    lemma_first_error(found@.len() as int, 0, errors);
    assert forall|i: int| 0 <= i < found@.len() implies (#[trigger] found_outcome(found@[i])) is Ok by {
        assert(errors(i) is None);
    }
    lemma_gathered(found@, s);
    let v = scenario_models(r->Ok_0@);
    let all = gathered(found@);
    assert(v.contains(s) <==> v.to_multiset().count(s) > 0);
    assert(all.contains(s) <==> all.to_multiset().count(s) > 0);
}

/// What is wrong with the first entry that is wrong is what discovery fails with:
/// that the directory, an entry or a file could not be read, or that a text is
/// not accepted.
pub proof fn law_discovery_failure(
    projects_dir: Seq<char>,
    found: Vec<Found>,
    error: String,
    r: Result<Vec<Scenario>, String>,
    k: int,
)
    ensures
        discovered(projects_dir, Err(error), r) ==> (r matches Err(m) && m@ == "read_dir "@ + projects_dir + ": "@ + error@),
        discovered(projects_dir, Ok(found), r) && 0 <= k < found@.len() && (forall|j: int|
            0 <= j < k ==> (#[trigger] found_outcome(found@[j])) is Ok) ==> match found@[k] {
            Found::Lost { error } => r matches Err(m) && m@ == "read_dir entry: "@ + error@,
            Found::Unreadable { path, error } => r matches Err(m) && m@ == "read "@ + path@ + ": "@ + error@,
            _ => found_outcome(found@[k]) matches Err(e) ==> (r matches Err(m) && m@ == e),
        },
{
    let errors = found_errors(found@);
    if discovered(projects_dir, Ok(found), r) && 0 <= k < found@.len() && (forall|j: int|
        0 <= j < k ==> (#[trigger] found_outcome(found@[j])) is Ok) && found_outcome(found@[k]) is Err {
        assert forall|j: int| 0 <= j < k implies (#[trigger] errors(j)) is None by {
            assert(found_outcome(found@[j]) is Ok);
        }
        assert(errors(k) is Some);
        law_first_error(found@.len() as int, 0, errors, k);
    }
}

} // verus!
