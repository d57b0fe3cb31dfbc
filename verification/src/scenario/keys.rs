//! Which keys an `expect.toml` may carry.

use vstd::prelude::*;

use crate::document::{entries_of, trees_of, Entry, Node, Tree};
use crate::scenario::model::{all_fields, field_text, field_texts, Field};
use crate::text::{cat3, cat4, first_error, same, verdict};

verus! {

/// A table: its keys and values, in the order in which it is walked.
pub type Rows = Seq<(Seq<char>, Tree)>;

/// The value under `key`.
pub open spec fn lookup(t: Rows, key: Seq<char>) -> Option<Tree>
    decreases t.len(),
{
    if t.len() == 0 {
        None
    } else if t[0].0 == key {
        Some(t[0].1)
    } else {
        lookup(t.drop_first(), key)
    }
}

/// Whether a step may carry `key`.
pub open spec fn step_key(key: Seq<char>) -> bool {
    field_texts(all_fields()).contains(key)
}

/// Whether a scenario may carry `key`.
pub open spec fn scenario_key(key: Seq<char>) -> bool {
    key == "name"@ || key == "surface"@ || key == "step"@ || step_key(key)
}

/// An error in the file of fixture `dir`.
pub open spec fn in_file(dir: Seq<char>, message: Seq<char>) -> Seq<char> {
    "scenario `"@ + dir + "`: "@ + message
}

/// What is wrong with each key of a step's table.
pub open spec fn unknown_step_keys(t: Rows, dir: Seq<char>) -> spec_fn(int) -> Option<Seq<char>> {
    |i: int|
        if step_key(t[i].0) {
            None
        } else {
            Some(in_file(dir, "unknown step key `"@ + t[i].0 + "`"@))
        }
}

/// What is wrong with one element of a `step` array, if anything.
pub open spec fn step_shape_error(v: Tree, dir: Seq<char>) -> Option<Seq<char>> {
    match v {
        Tree::Table(t) => first_error(t.len() as int, 0, unknown_step_keys(t, dir)),
        _ => Some(in_file(dir, "each `[[step]]` must be a table"@)),
    }
}

/// What is wrong with each element of a `step` array.
pub open spec fn step_shape_errors(a: Seq<Tree>, dir: Seq<char>) -> spec_fn(int) -> Option<Seq<char>> {
    |i: int| step_shape_error(a[i], dir)
}

/// What is wrong with each key of a scenario's table.
pub open spec fn unknown_scenario_keys(t: Rows, dir: Seq<char>) -> spec_fn(int) -> Option<Seq<char>> {
    |i: int|
        if scenario_key(t[i].0) {
            None
        } else {
            Some(in_file(dir, "unknown key `"@ + t[i].0 + "`"@))
        }
}

/// What is wrong with the keys of one scenario's table, if anything.
pub open spec fn scenario_shape_error(t: Rows, dir: Seq<char>) -> Option<Seq<char>> {
    let unknown = first_error(t.len() as int, 0, unknown_scenario_keys(t, dir));
    if unknown is Some {
        unknown
    } else {
        match lookup(t, "step"@) {
            None => None,
            Some(Tree::Array(a)) => first_error(a.len() as int, 0, step_shape_errors(a, dir)),
            Some(_) => Some(in_file(dir, "`step` must be an array"@)),
        }
    }
}

/// What is wrong with one element of the `scenario` array, if anything.
pub open spec fn element_error(v: Tree, dir: Seq<char>) -> Option<Seq<char>> {
    match v {
        Tree::Table(t) => scenario_shape_error(t, dir),
        _ => Some(in_file(dir, "each `[[scenario]]` must be a table"@)),
    }
}

/// What is wrong with each element of the `scenario` array.
pub open spec fn element_errors(a: Seq<Tree>, dir: Seq<char>) -> spec_fn(int) -> Option<Seq<char>> {
    |i: int| element_error(a[i], dir)
}

/// What is wrong with each top-level key of a document that has a `scenario` array.
pub open spec fn top_level_errors(t: Rows, dir: Seq<char>) -> spec_fn(int) -> Option<Seq<char>> {
    |i: int|
        if t[i].0 == "scenario"@ {
            None
        } else {
            Some(
                in_file(
                    dir,
                    "unknown top-level key `"@ + t[i].0
                        + "` (a `[[scenario]]` file may only contain the `scenario` array)"@,
                ),
            )
        }
}

/// What is wrong with the keys of a document, if anything.
pub open spec fn key_error(doc: Tree, dir: Seq<char>) -> Option<Seq<char>> {
    match doc {
        Tree::Table(t) => match lookup(t, "scenario"@) {
            None => scenario_shape_error(t, dir),
            Some(v) => {
                let top = first_error(t.len() as int, 0, top_level_errors(t, dir));
                if top is Some {
                    top
                } else {
                    match v {
                        Tree::Array(a) => first_error(a.len() as int, 0, element_errors(a, dir)),
                        _ => Some(in_file(dir, "`scenario` must be an array"@)),
                    }
                }
            },
        },
        _ => Some(in_file(dir, "expect.toml must be a table"@)),
    }
}

/// The value under `key`.
pub fn find_entry<'a>(t: &'a Vec<Entry>, key: &str) -> (r: Option<&'a Node>)
    ensures
        match r {
            Some(n) => lookup(entries_of(t@), key@) == Some(n@),
            None => lookup(entries_of(t@), key@) is None,
        },
{
    let ghost rows = entries_of(t@);
    let mut i: usize = 0;
    assert(rows.skip(0) =~= rows);
    while i < t.len()
        invariant
            i <= t@.len(),
            rows == entries_of(t@),
            lookup(rows.skip(i as int), key@) == lookup(rows, key@),
        decreases t.len() - i,
    {
        assert(rows.skip(i as int)[0] == rows[i as int]);
        assert(rows.skip(i as int).drop_first() =~= rows.skip(i + 1));
        if same(t[i].key.as_str(), key) {
            return Some(&t[i].value);
        }
        i += 1;
    }
    assert(rows.skip(i as int) =~= Seq::empty());
    None
}

/// Whether a step may carry `key`.
pub fn is_step_key(key: &str) -> (b: bool)
    ensures
        b == step_key(key@),
{
    let fields = Field::all();
    let ghost names = field_texts(all_fields());
    let mut i: usize = 0;
    while i < fields.len()
        invariant
            i <= fields@.len(),
            fields@ == all_fields(),
            names == field_texts(all_fields()),
            forall|k: int| 0 <= k < i ==> #[trigger] names[k] != key@,
        decreases fields.len() - i,
    {
        assert(names[i as int] == field_text(fields@[i as int]));
        if same(fields[i].name(), key) {
            return true;
        }
        i += 1;
    }
    false
}

/// An error in the file of fixture `dir`.
pub fn file_error(dir: &str, message: &str) -> (r: String)
    ensures
        r@ == in_file(dir@, message@),
{
    cat4("scenario `", dir, "`: ", message)
}

/// Checks the keys of one step's table.
fn check_step_table(t: &Vec<Entry>, dir_name: &str) -> (r: Result<(), String>)
    ensures
        verdict(r) == step_shape_error(Tree::Table(entries_of(t@)), dir_name@),
{
    let ghost rows = entries_of(t@);
    let ghost errors = unknown_step_keys(rows, dir_name@);
    let mut i: usize = 0;
    while i < t.len()
        invariant
            i <= t@.len(),
            rows == entries_of(t@),
            errors == unknown_step_keys(rows, dir_name@),
            first_error(rows.len() as int, i as int, errors) == first_error(
                rows.len() as int,
                0,
                errors,
            ),
        decreases t.len() - i,
    {
        let key = t[i].key.as_str();
        assert(rows[i as int].0 == key@);
        if !is_step_key(key) {
            return Err(file_error(dir_name, cat3("unknown step key `", key, "`").as_str()));
        }
        i += 1;
    }
    Ok(())
}

/// Validate the keys of one scenario table: its scenario-level keys (`name`,
/// `surface`, `step`, plus the fields of a single step) and the keys of each
/// `[[step]]` sub-table.
pub fn check_scenario_table(t: &Vec<Entry>, dir_name: &str) -> (r: Result<(), String>)
    ensures
        verdict(r) == scenario_shape_error(entries_of(t@), dir_name@),
{
    let ghost rows = entries_of(t@);
    let ghost errors = unknown_scenario_keys(rows, dir_name@);
    let mut i: usize = 0;
    while i < t.len()
        invariant
            i <= t@.len(),
            rows == entries_of(t@),
            errors == unknown_scenario_keys(rows, dir_name@),
            first_error(rows.len() as int, i as int, errors) == first_error(
                rows.len() as int,
                0,
                errors,
            ),
        decreases t.len() - i,
    {
        let key = t[i].key.as_str();
        assert(rows[i as int].0 == key@);
        let known = same(key, "name") || same(key, "surface") || same(key, "step") || is_step_key(
            key,
        );
        if !known {
            return Err(file_error(dir_name, cat3("unknown key `", key, "`").as_str()));
        }
        i += 1;
    }
    match find_entry(t, "step") {
        None => Ok(()),
        Some(Node::Array(a)) => {
            let ghost items = trees_of(a@);
            let ghost shapes = step_shape_errors(items, dir_name@);
            let mut k: usize = 0;
            while k < a.len()
                invariant
                    k <= a@.len(),
                    items == trees_of(a@),
                    shapes == step_shape_errors(items, dir_name@),
                    first_error(items.len() as int, k as int, shapes) == first_error(
                        items.len() as int,
                        0,
                        shapes,
                    ),
                    first_error(rows.len() as int, 0, errors) is None,
                    errors == unknown_scenario_keys(rows, dir_name@),
                    rows == entries_of(t@),
                    lookup(rows, "step"@) == Some(Tree::Array(items)),
                decreases a.len() - k,
            {
                assert(items[k as int] == a@[k as int]@);
                match &a[k] {
                    Node::Table(step) => {
                        match check_step_table(step, dir_name) {
                            Ok(_) => {},
                            Err(e) => {
                                return Err(e);
                            },
                        }
                    },
                    _ => {
                        return Err(file_error(dir_name, "each `[[step]]` must be a table"));
                    },
                }
                k += 1;
            }
            Ok(())
        },
        Some(_) => Err(file_error(dir_name, "`step` must be an array")),
    }
}

/// Reject any `expect.toml` key that no scenario- or step-level field claims.
/// A misspelt optional key would otherwise be dropped, and the scenario would
/// go green asserting nothing.
pub fn reject_unknown_keys(value: &Node, dir_name: &str) -> (r: Result<(), String>)
    ensures
        verdict(r) == key_error(value@, dir_name@),
{
    match value {
        Node::Table(t) => {
            let ghost rows = entries_of(t@);
            match find_entry(t, "scenario") {
                None => check_scenario_table(t, dir_name),
                Some(v) => {
                    let ghost errors = top_level_errors(rows, dir_name@);
                    let mut i: usize = 0;
                    while i < t.len()
                        invariant
                            i <= t@.len(),
                            rows == entries_of(t@),
                            errors == top_level_errors(rows, dir_name@),
                            first_error(rows.len() as int, i as int, errors) == first_error(
                                rows.len() as int,
                                0,
                                errors,
                            ),
                            value@ == Tree::Table(rows),
                            lookup(rows, "scenario"@) == Some(v@),
                        decreases t.len() - i,
                    {
                        let key = t[i].key.as_str();
                        assert(rows[i as int].0 == key@);
                        if !same(key, "scenario") {
                            return Err(
                                file_error(
                                    dir_name,
                                    cat3(
                                        "unknown top-level key `",
                                        key,
                                        "` (a `[[scenario]]` file may only contain the `scenario` array)",
                                    ).as_str(),
                                ),
                            );
                        }
                        i += 1;
                    }
                    match v {
                        Node::Array(a) => {
                            let ghost items = trees_of(a@);
                            let ghost elements = element_errors(items, dir_name@);
                            let mut k: usize = 0;
                            while k < a.len()
                                invariant
                                    k <= a@.len(),
                                    items == trees_of(a@),
                                    elements == element_errors(items, dir_name@),
                                    first_error(items.len() as int, k as int, elements)
                                        == first_error(items.len() as int, 0, elements),
                                    first_error(rows.len() as int, 0, errors) is None,
                                    errors == top_level_errors(rows, dir_name@),
                                    value@ == Tree::Table(rows),
                                    lookup(rows, "scenario"@) == Some(Tree::Array(items)),
                                decreases a.len() - k,
                            {
                                assert(items[k as int] == a@[k as int]@);
                                match &a[k] {
                                    Node::Table(scn) => {
                                        match check_scenario_table(scn, dir_name) {
                                            Ok(_) => {},
                                            Err(e) => {
                                                return Err(e);
                                            },
                                        }
                                    },
                                    _ => {
                                        return Err(
                                            file_error(
                                                dir_name,
                                                "each `[[scenario]]` must be a table",
                                            ),
                                        );
                                    },
                                }
                                k += 1;
                            }
                            Ok(())
                        },
                        _ => Err(file_error(dir_name, "`scenario` must be an array")),
                    }
                },
            }
        },
        _ => Err(file_error(dir_name, "expect.toml must be a table")),
    }
}

} // verus!
