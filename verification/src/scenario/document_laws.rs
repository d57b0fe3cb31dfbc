//! What a whole `expect.toml` comes to, and which ones are accepted.

use vstd::prelude::*;

use crate::document::Tree;
use crate::scenario::decode::{
    action_errors, head_error, head_errors, raw_at, raw_error, sequence_errors, step_at, step_value_error,
    step_value_errors, surface_of, under, value_error,
};
use crate::scenario::decode_laws::{
    is_text, law_decoded_scenario, law_decoded_step, law_keys, law_lookup, spelled_out,
};
use crate::scenario::expect::{
    display_name, fans_out, raw_errors, scenario_base, scenario_error, scenario_errors, scenario_tables, scenarios_of,
    step_errors, steps_of,
};
use crate::scenario::expect_laws::{known_keys, known_step_keys, law_parsed_is_sound};
use crate::scenario::keys::{
    element_errors, key_error, lookup, scenario_key, scenario_shape_error, step_key, step_shape_errors, top_level_errors,
    unknown_scenario_keys, unknown_step_keys, Rows,
};
use crate::scenario::model::{empty_step, ScenarioModel, Surface};
use crate::scenario::validate::step_error;
use crate::text::{decimal, lemma_first_error};

verus! {

/// Whether a scenario is the one that a table of fixture `dir` spells out.
/// `place` is where the table stands in the `scenario` array, where there is one.
pub open spec fn comes_from(s: ScenarioModel, t: Rows, dir: Seq<char>, place: Option<nat>) -> bool {
    &&& s.dir_name == dir
    &&& lookup(t, "surface"@) is Some
    &&& surface_of(lookup(t, "surface"@)->0) == Ok::<Surface, Seq<char>>(s.surface)
    &&& match lookup(t, "name"@) {
        Some(v) => exists|n: Seq<char>| is_text(v, n) && s.name == #[trigger] (dir + "/"@ + n),
        None => match place {
            Some(i) => s.name == dir + "/"@ + decimal(i),
            None => s.name == dir,
        },
    }
    &&& match lookup(t, "step"@) {
        Some(Tree::Array(a)) => if a.len() > 0 {
            &&& s.steps.len() == a.len()
            &&& forall|k: int| 0 <= k < a.len() ==> spelled_out((#[trigger] a[k])->Table_0, s.steps[k])
        } else {
            s.steps.len() == 1 && spelled_out(t, s.steps[0])
        },
        _ => s.steps.len() == 1 && spelled_out(t, s.steps[0]),
    }
}

/// A document that is accepted gives the scenarios that it spells out, and no
/// others: one for each table of its `scenario` array, in order, or the one that
/// it is itself.
pub proof fn law_parsed_document(doc: Tree, dir: Seq<char>, project_dir: Seq<char>)
    requires
        scenarios_of(doc, dir, project_dir) is Ok,
    ensures
        ({
            let v = scenarios_of(doc, dir, project_dir)->Ok_0;
            &&& doc is Table
            &&& forall|i: int| 0 <= i < v.len() ==> (#[trigger] v[i]).project_dir == project_dir
            &&& match lookup(doc->Table_0, "scenario"@) {
                None => v.len() == 1 && comes_from(v[0], doc->Table_0, dir, None),
                Some(Tree::Array(a)) => {
                    &&& v.len() == a.len()
                    &&& forall|i: int|
                        0 <= i < v.len() ==> comes_from(#[trigger] v[i], a[i]->Table_0, dir, Some(i as nat))
                },
                _ => false,
            }
        }),
{
    let v = scenarios_of(doc, dir, project_dir)->Ok_0;
    let tables = scenario_tables(doc);
    let raws = raw_errors(tables, scenario_base(doc));
    law_parsed_is_sound(doc, dir, project_dir);
    lemma_first_error(tables.len() as int, 0, raws);
    assert(key_error(doc, dir) is None);
    assert forall|i: int| 0 <= i < v.len() implies comes_from(
        #[trigger] v[i],
        tables[i],
        dir,
        if fans_out(doc) {
            Some(i as nat)
        } else {
            None
        },
    ) by {
        assert(raws(i) is None);
        law_decoded_scenario(tables[i], scenario_base(doc));
        let raw = raw_at(tables[i]);
        assert(v[i].steps == steps_of(raw));
        assert(v[i].name == display_name(raw, fans_out(doc), i, dir));
    }
}

/// Whether the values of a scenario's table have the types that they are to
/// have, and name a surface.
pub open spec fn well_typed(t: Rows) -> bool {
    &&& lookup(t, "surface"@) is Some
    &&& surface_of(lookup(t, "surface"@)->0) is Ok
    &&& lookup(t, "name"@) is Some ==> lookup(t, "name"@)->0 is Str || lookup(t, "name"@)->0 is Datetime
    &&& well_typed_step(t)
    &&& (lookup(t, "step"@) matches Some(Tree::Array(a)) ==> forall|k: int|
        0 <= k < a.len() ==> well_typed_step((#[trigger] a[k])->Table_0))
}

/// Whether the values of a step's table have the types that they are to have.
pub open spec fn well_typed_step(t: Rows) -> bool {
    forall|i: int| 0 <= i < t.len() ==> value_error((#[trigger] t[i]).0, t[i].1) is None
}

/// Whether the steps of a scenario's table can be driven: either its inline
/// fields are one step that is in order, or it has none and its sequence, on a
/// surface that keeps a session, is of steps that are in order.
pub open spec fn drivable(t: Rows) -> bool {
    let surface = surface_of(lookup(t, "surface"@)->0)->Ok_0;
    match lookup(t, "step"@) {
        Some(Tree::Array(a)) => if a.len() > 0 {
            &&& surface is Lsp || surface is Mcp
            &&& forall|i: int| 0 <= i < t.len() ==> !step_key((#[trigger] t[i]).0)
            &&& forall|k: int|
                0 <= k < a.len() ==> step_error(surface, step_at((#[trigger] a[k])->Table_0), a.len() > 1) is None
        } else {
            step_error(surface, step_at(t), false) is None
        },
        _ => step_error(surface, step_at(t), false) is None,
    }
}

/// A document is accepted if and only if it is one table that spells out a
/// scenario, or has nothing but a `scenario` array of such tables, at least one:
/// all keys are known, all values have their types, and all steps can be driven.
pub proof fn law_accepted_documents(doc: Tree, dir: Seq<char>, project_dir: Seq<char>)
    ensures
        scenarios_of(doc, dir, project_dir) is Ok <==> {
            doc matches Tree::Table(t) && match lookup(t, "scenario"@) {
                None => known_keys(t) && well_typed(t) && drivable(t),
                Some(v) => {
                    &&& forall|i: int| 0 <= i < t.len() ==> (#[trigger] t[i]).0 == "scenario"@
                    &&& (v matches Tree::Array(a) && a.len() > 0 && forall|i: int|
                        0 <= i < a.len() ==> ((#[trigger] a[i]) matches Tree::Table(r) && known_keys(r) && well_typed(r)
                            && drivable(r)))
                },
            }
        },
{
    match doc {
        Tree::Table(t) => {
            let tables = scenario_tables(doc);
            let n = tables.len() as int;
            let base = scenario_base(doc);
            let raws = raw_errors(tables, base);
            let built = scenario_errors(tables, fans_out(doc), dir);
            lemma_first_error(n, 0, raws);
            lemma_first_error(n, 0, built);
            assert forall|i: int| 0 <= i < n && known_keys(#[trigger] tables[i]) implies (raws(i) is None <==> well_typed(
                tables[i],
            )) by {
                lemma_well_typed(tables[i], base);
            }
            assert forall|i: int| 0 <= i < n && known_keys(#[trigger] tables[i]) && well_typed(tables[i]) implies (built(
                i,
            ) is None <==> drivable(tables[i])) by {
                lemma_drivable(tables[i], display_name(raw_at(tables[i]), fans_out(doc), i, dir));
            }
            match lookup(t, "scenario"@) {
                None => {
                    lemma_shape(t, dir);
                    assert(tables[0] == t);
                    if key_error(doc, dir) is None {
                        assert(known_keys(tables[0]));
                        if well_typed(t) && drivable(t) {
                            assert(raws(0) is None);
                            assert(built(0) is None);
                        }
                        if scenarios_of(doc, dir, project_dir) is Ok {
                            assert(raws(0) is None);
                            assert(built(0) is None);
                        }
                    }
                },
                Some(v) => {
                    let top = top_level_errors(t, dir);
                    lemma_first_error(t.len() as int, 0, top);
                    assert forall|i: int| 0 <= i < t.len() implies ((#[trigger] top(i)) is None <==> t[i].0 == "scenario"@) by {}
                    match v {
                        Tree::Array(a) => {
                            let f = element_errors(a, dir);
                            lemma_first_error(a.len() as int, 0, f);
                            assert forall|i: int| 0 <= i < a.len() implies ((#[trigger] f(i)) is None <==> (a[i] is Table
                                && known_keys(a[i]->Table_0))) by {
                                match a[i] {
                                    Tree::Table(r) => {
                                        lemma_shape(r, dir);
                                    },
                                    _ => {},
                                }
                            }
                            assert forall|i: int| 0 <= i < a.len() implies #[trigger] tables[i] == a[i]->Table_0 by {}
                            if scenarios_of(doc, dir, project_dir) is Ok {
                                assert forall|i: int| 0 <= i < t.len() implies (#[trigger] t[i]).0 == "scenario"@ by {
                                    assert(top(i) is None);
                                }
                                assert forall|i: int| 0 <= i < a.len() implies ((#[trigger] a[i]) matches Tree::Table(r)
                                    && known_keys(r) && well_typed(r) && drivable(r)) by {
                                    assert(f(i) is None);
                                    assert(known_keys(tables[i]));
                                    assert(raws(i) is None);
                                    assert(built(i) is None);
                                }
                            } else if (forall|i: int| 0 <= i < t.len() ==> (#[trigger] t[i]).0 == "scenario"@) && a.len() > 0
                                && (forall|i: int|
                                0 <= i < a.len() ==> ((#[trigger] a[i]) matches Tree::Table(r) && known_keys(r) && well_typed(r)
                                    && drivable(r))) {
                                assert forall|i: int| 0 <= i < t.len() implies (#[trigger] top(i)) is None by {
                                    assert(t[i].0 == "scenario"@);
                                }
                                assert forall|i: int| 0 <= i < a.len() implies (#[trigger] f(i)) is None by {
                                    assert(a[i] is Table);
                                }
                                assert(key_error(doc, dir) is None);
                                assert forall|i: int| 0 <= i < n implies (#[trigger] raws(i)) is None by {
                                    assert(a[i] is Table);
                                    assert(known_keys(tables[i]));
                                }
                                assert forall|i: int| 0 <= i < n implies (#[trigger] built(i)) is None by {
                                    assert(a[i] is Table);
                                    assert(known_keys(tables[i]) && well_typed(tables[i]));
                                }
                            }
                        },
                        _ => {},
                    }
                },
            }
        },
        _ => {},
    }
}

/// The shape of a scenario's table is in order if and only if its keys are known.
proof fn lemma_shape(t: Rows, dir: Seq<char>)
    ensures
        scenario_shape_error(t, dir) is None <==> known_keys(t),
{
    let f = unknown_scenario_keys(t, dir);
    lemma_first_error(t.len() as int, 0, f);
    assert forall|i: int| 0 <= i < t.len() implies ((#[trigger] f(i)) is None <==> scenario_key(t[i].0)) by {}
    if known_keys(t) {
        assert forall|i: int| 0 <= i < t.len() implies (#[trigger] f(i)) is None by {
            assert(scenario_key(t[i].0));
        }
    }
    if scenario_shape_error(t, dir) is None {
        assert forall|i: int| 0 <= i < t.len() implies scenario_key((#[trigger] t[i]).0) by {
            assert(f(i) is None);
        }
    }
    match lookup(t, "step"@) {
        Some(Tree::Array(a)) => {
            let g = step_shape_errors(a, dir);
            lemma_first_error(a.len() as int, 0, g);
            assert forall|i: int| 0 <= i < a.len() implies ((#[trigger] g(i)) is None <==> known_step_keys(a[i])) by {
                match a[i] {
                    Tree::Table(rows) => {
                        let h = unknown_step_keys(rows, dir);
                        lemma_first_error(rows.len() as int, 0, h);
                        assert forall|j: int| 0 <= j < rows.len() implies ((#[trigger] h(j)) is None <==> step_key(rows[j].0)) by {}
                        if g(i) is None {
                            assert forall|j: int| 0 <= j < rows.len() implies step_key((#[trigger] rows[j]).0) by {
                                assert(h(j) is None);
                            }
                        }
                        if known_step_keys(a[i]) {
                            assert forall|j: int| 0 <= j < rows.len() implies (#[trigger] h(j)) is None by {
                                assert(step_key(rows[j].0));
                            }
                        }
                    },
                    _ => {},
                }
            }
            if known_keys(t) {
                assert forall|i: int| 0 <= i < a.len() implies (#[trigger] g(i)) is None by {
                    assert(known_step_keys(a[i]));
                }
            }
            if scenario_shape_error(t, dir) is None {
                assert forall|i: int| 0 <= i < a.len() implies known_step_keys(#[trigger] a[i]) by {
                    assert(g(i) is None);
                }
            }
        },
        _ => {},
    }
}

/// The values of a step's table have no error if and only if they have their
/// types.
proof fn lemma_step_values(t: Rows, path: Seq<char>)
    ensures
        step_value_error(t, path) is None <==> well_typed_step(t),
{
    let f = step_value_errors(t, path);
    lemma_first_error(t.len() as int, 0, f);
    assert forall|i: int| 0 <= i < t.len() implies ((#[trigger] f(i)) is None <==> value_error(t[i].0, t[i].1) is None) by {}
    if well_typed_step(t) {
        assert forall|i: int| 0 <= i < t.len() implies (#[trigger] f(i)) is None by {
            assert(value_error(t[i].0, t[i].1) is None);
        }
    }
    if step_value_error(t, path) is None {
        assert forall|i: int| 0 <= i < t.len() implies value_error((#[trigger] t[i]).0, t[i].1) is None by {
            assert(f(i) is None);
        }
    }
}

/// The values of a scenario's table have no error if and only if they have their
/// types.
proof fn lemma_well_typed(t: Rows, base: Seq<char>)
    requires
        known_keys(t),
    ensures
        raw_error(t, base) is None <==> well_typed(t),
{
    let heads = head_errors(t, base);
    let actions = action_errors(t, base);
    lemma_first_error(t.len() as int, 0, heads);
    lemma_first_error(t.len() as int, 0, actions);
    reveal_strlit("name");
    reveal_strlit("surface");
    reveal_strlit("step");
    assert("name"@.len() == 4 && "surface"@.len() == 7 && "step"@.len() == 4);
    assert("name"@[0] == 'n' && "step"@[0] == 's');
    assert forall|i: int| 0 <= i < t.len() implies ((#[trigger] actions(i)) is None <==> value_error(t[i].0, t[i].1) is None) by {}
    let path = under(base, "step"@);
    match lookup(t, "step"@) {
        Some(Tree::Array(a)) => {
            let f = sequence_errors(a, path);
            lemma_first_error(a.len() as int, 0, f);
            assert forall|k: int| 0 <= k < a.len() implies ((#[trigger] f(k)) is None <==> well_typed_step(a[k]->Table_0)) by {
                lemma_step_values(a[k]->Table_0, path);
            }
            if well_typed(t) {
                assert forall|k: int| 0 <= k < a.len() implies (#[trigger] f(k)) is None by {
                    assert(well_typed_step(a[k]->Table_0));
                }
            }
            if head_error("step"@, Tree::Array(a), base) is None {
                assert forall|k: int| 0 <= k < a.len() implies well_typed_step((#[trigger] a[k])->Table_0) by {
                    assert(f(k) is None);
                }
            }
        },
        _ => {},
    }
    if well_typed(t) {
        assert forall|i: int| 0 <= i < t.len() implies (#[trigger] heads(i)) is None by {
            law_lookup(t, t[i].0, 0);
            assert(lookup(t, t[i].0) is Some);
        }
        assert forall|i: int| 0 <= i < t.len() implies (#[trigger] actions(i)) is None by {
            assert(value_error(t[i].0, t[i].1) is None);
        }
    }
    if raw_error(t, base) is None {
        assert forall|i: int| 0 <= i < t.len() implies value_error((#[trigger] t[i]).0, t[i].1) is None by {
            assert(actions(i) is None);
        }
        lemma_head_at(t, base, "name"@);
        lemma_head_at(t, base, "surface"@);
        lemma_head_at(t, base, "step"@);
    }
}

/// A scenario-level key of a table without errors has none.
proof fn lemma_head_at(t: Rows, base: Seq<char>, key: Seq<char>)
    requires
        forall|i: int| 0 <= i < t.len() ==> (#[trigger] head_errors(t, base)(i)) is None,
    ensures
        lookup(t, key) is Some ==> head_error(key, lookup(t, key)->0, base) is None,
{
    if lookup(t, key) is Some {
        law_lookup(t, key, 0);
        let i = choose|i: int| 0 <= i < t.len() && (#[trigger] t[i]).0 == key;
        assert(head_errors(t, base)(i) is None);
    }
}

/// A step without fields is one of a table without keys of a step.
proof fn lemma_no_inline_fields(t: Rows)
    requires
        well_typed_step(t),
    ensures
        step_at(t) == empty_step() <==> forall|i: int| 0 <= i < t.len() ==> !step_key((#[trigger] t[i]).0),
{
    let names = seq![
        "entrypoint"@,
        "args"@,
        "setup"@,
        "cwd"@,
        "stdout"@,
        "stdout_contains"@,
        "stderr_contains"@,
        "exit_code"@,
        "method"@,
        "source"@,
        "line"@,
        "character"@,
        "response_contains"@,
        "tool"@,
        "code"@,
        "arguments"@,
    ];
    lemma_step_values(t, Seq::empty());
    law_decoded_step(t, Seq::empty());
    if step_at(t) == empty_step() {
        assert forall|i: int| 0 <= i < t.len() implies !step_key((#[trigger] t[i]).0) by {
            law_lookup(t, t[i].0, 0);
            law_keys(t[i].0);
            if step_key(t[i].0) {
                let k = choose|k: int| 0 <= k < names.len() && names[k] == t[i].0;
                assert(lookup(t, names[k]) is Some);
            }
        }
    }
    if forall|i: int| 0 <= i < t.len() ==> !step_key((#[trigger] t[i]).0) {
        assert forall|k: int| 0 <= k < names.len() implies lookup(t, #[trigger] names[k]) is None by {
            law_lookup(t, names[k], 0);
            law_keys(names[k]);
            assert(names.contains(names[k]));
        }
        assert(lookup(t, names[0]) is None && lookup(t, names[1]) is None && lookup(t, names[2]) is None && lookup(t, names[3]) is None);
        assert(lookup(t, names[4]) is None && lookup(t, names[5]) is None && lookup(t, names[6]) is None && lookup(t, names[7]) is None);
        assert(lookup(t, names[8]) is None && lookup(t, names[9]) is None && lookup(t, names[10]) is None && lookup(t, names[11]) is None);
        assert(lookup(t, names[12]) is None && lookup(t, names[13]) is None && lookup(t, names[14]) is None && lookup(t, names[15]) is None);
        assert(step_at(t) =~= empty_step());
    }
}

/// A scenario as written has no error if and only if its steps can be driven.
proof fn lemma_drivable(t: Rows, display: Seq<char>)
    requires
        known_keys(t),
        well_typed(t),
    ensures
        scenario_error(raw_at(t), display) is None <==> drivable(t),
{
    let raw = raw_at(t);
    let steps = steps_of(raw);
    lemma_no_inline_fields(t);
    let f = step_errors(raw.surface, steps, display);
    lemma_first_error(steps.len() as int, 0, f);
    assert forall|k: int| 0 <= k < steps.len() implies ((#[trigger] f(k)) is None <==> step_error(
        raw.surface,
        steps[k],
        steps.len() > 1,
    ) is None) by {}
    match lookup(t, "step"@) {
        Some(Tree::Array(a)) => {
            if a.len() > 0 {
                assert(steps.len() == a.len());
                assert forall|k: int| 0 <= k < a.len() implies #[trigger] steps[k] == step_at(a[k]->Table_0) by {}
                if drivable(t) {
                    assert forall|k: int| 0 <= k < steps.len() implies (#[trigger] f(k)) is None by {
                        assert(step_error(raw.surface, step_at(a[k]->Table_0), a.len() > 1) is None);
                    }
                }
                if scenario_error(raw, display) is None {
                    assert forall|k: int| 0 <= k < a.len() implies step_error(
                        raw.surface,
                        step_at((#[trigger] a[k])->Table_0),
                        a.len() > 1,
                    ) is None by {
                        assert(f(k) is None);
                        assert(steps[k] == step_at(a[k]->Table_0));
                    }
                }
            } else {
                assert(steps =~= seq![raw.action]);
                assert(f(0) is None <==> step_error(raw.surface, steps[0], false) is None);
            }
        },
        _ => {
            assert(steps =~= seq![raw.action]);
            assert(f(0) is None <==> step_error(raw.surface, steps[0], false) is None);
        },
    }
}

} // verus!
