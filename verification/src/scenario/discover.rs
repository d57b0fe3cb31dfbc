//! From the directories under `projects/` to the sorted list of scenarios.

use vstd::multiset::Multiset;
use vstd::prelude::*;

use crate::scenario::expect::{parse_expect_text, parse_outcome, scenarios_of_text};
use crate::scenario::model::{scenario_models, Scenario, ScenarioModel};
use crate::text::{
    cat2, cat3, cat4, first_error, lemma_first_error, less, lemma_less_irreflexive, lemma_less_total,
    lemma_less_transitive, same, text_less,
};

verus! {

/// An entry of the `projects/` directory, as it was found.
pub enum Found {
    /// The entry itself could not be read.
    Lost {
        /// The error.
        error: String,
    },
    /// Not a directory, or a directory without `expect.toml`: fixture data for
    /// something else.
    Other,
    /// A fixture whose `expect.toml` could not be read.
    Unreadable {
        /// The path of the `expect.toml`.
        path: String,
        /// The error.
        error: String,
    },
    /// A fixture.
    Fixture {
        /// The name of the directory, where it is text.
        dir_name: Option<String>,
        /// The path of the directory.
        project_dir: String,
        /// The text of its `expect.toml`.
        text: String,
    },
}

/// The name under which a fixture goes.
pub open spec fn fixture_name(dir_name: Option<String>) -> Seq<char> {
    match dir_name {
        Some(n) => n@,
        None => "unknown"@,
    }
}

/// The scenarios of one entry, or what is wrong with it.
pub open spec fn found_outcome(f: Found) -> Result<Seq<ScenarioModel>, Seq<char>> {
    match f {
        Found::Lost { error } => Err("read_dir entry: "@ + error@),
        Found::Other => Ok(Seq::empty()),
        Found::Unreadable { path, error } => Err("read "@ + path@ + ": "@ + error@),
        Found::Fixture { dir_name, project_dir, text } => scenarios_of_text(
            text@,
            fixture_name(dir_name),
            project_dir@,
        ),
    }
}

/// What is wrong with each entry.
pub open spec fn found_errors(v: Seq<Found>) -> spec_fn(int) -> Option<Seq<char>> {
    |i: int|
        match found_outcome(v[i]) {
            Ok(_) => None,
            Err(e) => Some(e),
        }
}

/// The scenarios of all entries, in the order of the entries.
pub open spec fn gathered(v: Seq<Found>) -> Seq<ScenarioModel>
    decreases v.len(),
{
    if v.len() == 0 {
        Seq::empty()
    } else {
        gathered(v.drop_last()) + found_outcome(v.last())->Ok_0
    }
}

/// The names of scenarios.
pub open spec fn names_of(v: Seq<ScenarioModel>) -> Seq<Seq<char>> {
    v.map_values(|s: ScenarioModel| s.name)
}

/// Whether each name comes before all that follow it.
pub open spec fn ascending(names: Seq<Seq<char>>) -> bool {
    forall|i: int, j: int|
        0 <= i < j < names.len() ==> text_less(#[trigger] names[i], #[trigger] names[j])
}

/// Whether no name comes before one that it follows.
pub open spec fn in_order(names: Seq<Seq<char>>) -> bool {
    forall|i: int, j: int|
        0 <= i < j < names.len() ==> !text_less(#[trigger] names[j], #[trigger] names[i])
}

/// Whether `n` occurs more than once.
pub open spec fn repeated(names: Seq<Seq<char>>, n: Seq<char>) -> bool {
    names.to_multiset().count(n) >= 2
}

/// Whether `n` is the first name, in order, that occurs more than once.
pub open spec fn least_repeated(names: Seq<Seq<char>>, n: Seq<char>) -> bool {
    &&& repeated(names, n)
    &&& forall|m: Seq<char>| #[trigger] repeated(names, m) ==> !text_less(m, n)
}

/// What discovery owes for a listing of `projects_dir`.
pub open spec fn discovered(
    projects_dir: Seq<char>,
    listing: Result<Vec<Found>, String>,
    r: Result<Vec<Scenario>, String>,
) -> bool {
    match listing {
        Err(e) => parse_outcome(r) == Err::<Seq<ScenarioModel>, Seq<char>>(
            "read_dir "@ + projects_dir + ": "@ + e@,
        ),
        Ok(found) => match first_error(found@.len() as int, 0, found_errors(found@)) {
            Some(e) => parse_outcome(r) == Err::<Seq<ScenarioModel>, Seq<char>>(e),
            None => {
                let names = names_of(gathered(found@));
                if names.no_duplicates() {
                    &&& r is Ok
                    &&& scenario_models(r->Ok_0@).to_multiset() == gathered(found@).to_multiset()
                    &&& ascending(names_of(scenario_models(r->Ok_0@)))
                } else {
                    &&& r is Err
                    &&& exists|n: Seq<char>| #[trigger]
                        least_repeated(names, n) && r->Err_0@ == "duplicate scenario name `"@ + n
                            + "`"@
                }
            },
        },
    }
}

// ── Sorting ─────────────────────────────────────────────────────────────────

/// A name occurs twice where it stands at two positions, and nowhere else.
proof fn lemma_repeated(names: Seq<Seq<char>>, n: Seq<char>)
    ensures
        repeated(names, n) <==> exists|i: int, j: int|
            0 <= i < j < names.len() && #[trigger] names[i] == n && #[trigger] names[j] == n,
    decreases names.len(),
{
    broadcast use vstd::seq_lib::group_to_multiset_ensures;
    broadcast use vstd::multiset::group_multiset_axioms;

    if names.len() == 0 {
        assert(names =~= Seq::empty());
        assert(names.to_multiset() =~= Multiset::empty());
    } else {
        let init = names.drop_last();
        assert(names =~= init.push(names.last()));
        lemma_repeated(init, n);
        assert(init.contains(n) <==> init.to_multiset().count(n) > 0);
        if repeated(names, n) {
            if repeated(init, n) {
                let (i, j) = choose|i: int, j: int|
                    0 <= i < j < init.len() && #[trigger] init[i] == n && #[trigger] init[j] == n;
                assert(names[i] == n && names[j] == n);
            } else {
                assert(names.last() == n);
                assert(init.contains(n));
                let i = choose|i: int| 0 <= i < init.len() && init[i] == n;
                assert(names[i] == n && names[names.len() - 1] == n);
            }
        }
        if exists|i: int, j: int|
            0 <= i < j < names.len() && #[trigger] names[i] == n && #[trigger] names[j] == n {
            let (i, j) = choose|i: int, j: int|
                0 <= i < j < names.len() && #[trigger] names[i] == n && #[trigger] names[j] == n;
            if j < init.len() {
                assert(init[i] == n && init[j] == n);
            } else {
                assert(init[i] == n);
                assert(init.contains(n));
            }
        }
    }
}

/// Names that occur equally often repeat equally.
proof fn lemma_same_repeats(a: Seq<Seq<char>>, b: Seq<Seq<char>>)
    requires
        a.to_multiset() == b.to_multiset(),
    ensures
        a.no_duplicates() == b.no_duplicates(),
{
    if a.no_duplicates() && !b.no_duplicates() {
        let (i, j) = choose|i: int, j: int|
            0 <= i < b.len() && 0 <= j < b.len() && i != j && b[i] == b[j];
        let (p, q) = if i < j {
            (i, j)
        } else {
            (j, i)
        };
        assert(b[p] == b[i] && b[q] == b[i]);
        lemma_repeated(b, b[i]);
        lemma_repeated(a, b[i]);
        assert(repeated(a, b[i]));
    }
    if b.no_duplicates() && !a.no_duplicates() {
        let (i, j) = choose|i: int, j: int|
            0 <= i < a.len() && 0 <= j < a.len() && i != j && a[i] == a[j];
        let (p, q) = if i < j {
            (i, j)
        } else {
            (j, i)
        };
        assert(a[p] == a[i] && a[q] == a[i]);
        lemma_repeated(a, a[i]);
        lemma_repeated(b, a[i]);
        assert(repeated(b, a[i]));
    }
}

/// The first two equal neighbours of ordered names hold the first repeated name.
proof fn lemma_first_pair(names: Seq<Seq<char>>, i: int)
    requires
        in_order(names),
        0 <= i,
        i + 1 < names.len(),
        names[i] == names[i + 1],
        forall|k: int| 0 < k <= i ==> names[k - 1] != #[trigger] names[k],
    ensures
        least_repeated(names, names[i]),
        !names.no_duplicates(),
{
    let n = names[i];
    lemma_repeated(names, n);
    assert forall|m: Seq<char>| #[trigger] repeated(names, m) implies !text_less(m, n) by {
        lemma_repeated(names, m);
        let (a, b) = choose|a: int, b: int|
            0 <= a < b < names.len() && #[trigger] names[a] == m && #[trigger] names[b] == m;
        if a < i {
            lemma_neighbours(names, a, b);
            assert(names[a + 1] == m);
        } else if a > i {
            assert(!text_less(names[a], names[i]));
        } else {
            lemma_less_irreflexive(n);
        }
    }
}

/// Between two equal ordered names all are equal.
proof fn lemma_neighbours(names: Seq<Seq<char>>, a: int, b: int)
    requires
        in_order(names),
        0 <= a < b < names.len(),
        names[a] == names[b],
    ensures
        names[a + 1] == names[a],
{
    lemma_less_total(names[a], names[a + 1]);
    assert(!text_less(names[a + 1], names[a]));
    if a + 1 < b {
        assert(!text_less(names[b], names[a + 1]));
    }
}

/// What repeats first depends on how often each name occurs, and on nothing
/// else.
proof fn lemma_least_repeated(a: Seq<Seq<char>>, b: Seq<Seq<char>>, n: Seq<char>)
    requires
        a.to_multiset() == b.to_multiset(),
        least_repeated(a, n),
    ensures
        least_repeated(b, n),
{
    assert forall|m: Seq<char>| #[trigger] repeated(b, m) implies !text_less(m, n) by {
        assert(repeated(a, m));
    }
}

/// Ordered names without equal neighbours ascend.
proof fn lemma_no_pairs(names: Seq<Seq<char>>)
    requires
        in_order(names),
        forall|k: int| 0 < k < names.len() ==> names[k - 1] != #[trigger] names[k],
    ensures
        ascending(names),
        names.no_duplicates(),
{
    assert forall|a: int, b: int| 0 <= a < b < names.len() implies text_less(
        #[trigger] names[a],
        #[trigger] names[b],
    ) by {
        lemma_less_total(names[a], names[b]);
        assert(!text_less(names[b], names[a]));
        if names[a] == names[b] {
            lemma_neighbours(names, a, b);
            assert(names[a + 1 - 1] != names[a + 1]);
        }
    }
    assert forall|a: int, b: int|
        0 <= a < names.len() && 0 <= b < names.len() && a != b implies names[a] != names[b] by {
        lemma_less_irreflexive(names[a]);
        if a < b {
            assert(text_less(names[a], names[b]));
        } else {
            assert(text_less(names[b], names[a]));
        }
    }
}

/// Sorts scenarios by name; those with equal names keep their order.
fn sort_by_name(v: Vec<Scenario>) -> (r: Vec<Scenario>)
    ensures
        scenario_models(r@).to_multiset() == scenario_models(v@).to_multiset(),
        names_of(scenario_models(r@)).to_multiset() == names_of(
            scenario_models(v@),
        ).to_multiset(),
        in_order(names_of(scenario_models(r@))),
{
    broadcast use vstd::seq_lib::group_to_multiset_ensures;

    let mut out: Vec<Scenario> = Vec::new();
    let ghost all = scenario_models(v@);
    proof {
        assert(scenario_models(out@) =~= all.take(0));
        assert(names_of(scenario_models(out@)) =~= names_of(all.take(0)));
    }
    for s in it: v
        invariant
            it.seq() == v@,
            all == scenario_models(v@),
            scenario_models(out@).to_multiset() == all.take(it.index() as int).to_multiset(),
            names_of(scenario_models(out@)).to_multiset() == names_of(
                all.take(it.index() as int),
            ).to_multiset(),
            in_order(names_of(scenario_models(out@))),
    {
        let ghost before = scenario_models(out@);
        let ghost names = names_of(before);
        let mut p: usize = 0;
        while p < out.len() && !less(s.name.as_str(), out[p].name.as_str())
            invariant
                p <= out@.len(),
                before == scenario_models(out@),
                names == names_of(before),
                forall|k: int| 0 <= k < p ==> !text_less(s.name@, #[trigger] names[k]),
            decreases out.len() - p,
        {
            assert(names[p as int] == out@[p as int].name@);
            p += 1;
        }
        let ghost model = s@;
        proof {
            if p < out@.len() {
                assert(names[p as int] == out@[p as int].name@);
            }
        }
        out.insert(p, s);
        proof {
            broadcast use vstd::seq_lib::group_to_multiset_ensures;

            let k = it.index() as int;
            let after = scenario_models(out@);
            assert(after =~= before.insert(p as int, model));
            assert(names_of(after) =~= names.insert(p as int, model.name));
            assert(all.take(k + 1) =~= all.take(k).push(model));
            assert(names_of(all.take(k + 1)) =~= names_of(all.take(k)).push(model.name));
            let new_names = names_of(after);
            assert forall|i: int, j: int| 0 <= i < j < new_names.len() implies !text_less(
                #[trigger] new_names[j],
                #[trigger] new_names[i],
            ) by {
                if i < p && j < p {
                    assert(new_names[i] == names[i] && new_names[j] == names[j]);
                } else if i < p && j == p {
                    assert(new_names[i] == names[i]);
                } else if i < p {
                    assert(new_names[i] == names[i] && new_names[j] == names[j - 1]);
                } else if i == p {
                    assert(new_names[j] == names[j - 1]);
                    if text_less(names[j - 1], model.name) {
                        lemma_less_transitive(names[j - 1], model.name, names[p as int]);
                        lemma_less_irreflexive(names[p as int]);
                        if j - 1 > p {
                            assert(!text_less(names[j - 1], names[p as int]));
                        }
                    }
                } else {
                    assert(new_names[i] == names[i - 1] && new_names[j] == names[j - 1]);
                }
            }
        }
    }
    proof {
        assert(all.take(all.len() as int) =~= all);
    }
    out
}

// ── Discovery ───────────────────────────────────────────────────────────────

/// The scenarios of one entry.
fn scenarios_found(f: Found) -> (r: Result<Vec<Scenario>, String>)
    ensures
        parse_outcome(r) == found_outcome(f),
{
    match f {
        Found::Lost { error } => Err(cat2("read_dir entry: ", error.as_str())),
        Found::Other => {
            let none: Vec<Scenario> = Vec::new();
            assert(scenario_models(none@) =~= Seq::empty());
            Ok(none)
        },
        Found::Unreadable { path, error } => Err(
            cat4("read ", path.as_str(), ": ", error.as_str()),
        ),
        Found::Fixture { dir_name, project_dir, text } => match dir_name {
            Some(n) => parse_expect_text(text.as_str(), n.as_str(), project_dir.as_str()),
            None => parse_expect_text(text.as_str(), "unknown", project_dir.as_str()),
        },
    }
}

/// Discover all scenarios under `projects/`: one or more per `expect.toml`.
///
/// The list is sorted by name. Directories without `expect.toml` are skipped.
/// Two scenarios of one name are an error: a failure would be ambiguous.
pub fn discover(projects_dir: &str, listing: Result<Vec<Found>, String>) -> (r: Result<
    Vec<Scenario>,
    String,
>)
    ensures
        discovered(projects_dir@, listing, r),
{
    let found = match listing {
        Ok(found) => found,
        Err(e) => {
            return Err(cat4("read_dir ", projects_dir, ": ", e.as_str()));
        },
    };
    let ghost errors = found_errors(found@);
    let mut scenarios: Vec<Scenario> = Vec::new();
    assert(scenario_models(scenarios@) =~= gathered(found@.take(0)));
    for f in it: found
        invariant
            it.seq() == found@,
            listing == Ok::<Vec<Found>, String>(found),
            errors == found_errors(found@),
            scenario_models(scenarios@) == gathered(found@.take(it.index() as int)),
            first_error(found@.len() as int, it.index() as int, errors) == first_error(
                found@.len() as int,
                0,
                errors,
            ),
    {
        let ghost k = it.index() as int;
        let ghost before = scenario_models(scenarios@);
        assert(found@.take(k + 1).drop_last() =~= found@.take(k));
        match scenarios_found(f) {
            Ok(mut more) => {
                let ghost added = scenario_models(more@);
                scenarios.append(&mut more);
                assert(scenario_models(scenarios@) =~= before + added);
            },
            Err(e) => {
                return Err(e);
            },
        }
    }
    assert(found@.take(found@.len() as int) =~= found@);
    let ghost all = gathered(found@);
    let sorted = sort_by_name(scenarios);
    let ghost names = names_of(scenario_models(sorted@));
    proof {
        lemma_same_repeats(names, names_of(all));
    }
    let n = sorted.len();
    let mut i: usize = 0;
    while n - i > 1
        invariant
            n == sorted@.len(),
            listing == Ok::<Vec<Found>, String>(found),
            first_error(found@.len() as int, 0, found_errors(found@)) is None,
            all == gathered(found@),
            names == names_of(scenario_models(sorted@)),
            names.to_multiset() == names_of(all).to_multiset(),
            names.no_duplicates() == names_of(all).no_duplicates(),
            in_order(names),
            i <= n,
            i < n || i == 0,
            forall|k: int| 0 < k <= i && k < names.len() ==> names[k - 1] != #[trigger] names[k],
        decreases n - i,
    {
        assert(names[i as int] == sorted@[i as int].name@);
        assert(names[i + 1] == sorted@[i + 1].name@);
        if same(sorted[i].name.as_str(), sorted[i + 1].name.as_str()) {
            proof {
                lemma_first_pair(names, i as int);
                lemma_least_repeated(names, names_of(all), names[i as int]);
            }
            return Err(cat3("duplicate scenario name `", sorted[i].name.as_str(), "`"));
        }
        i += 1;
    }
    proof {
        lemma_no_pairs(names);
    }
    Ok(sorted)
}

/// Two scenarios of one name are named as such: the name of the error is that of
/// two different scenarios, and no name that comes before it is.
pub proof fn law_duplicate_is_named(projects_dir: Seq<char>, found: Vec<Found>, r: Result<Vec<Scenario>, String>)
    requires
        discovered(projects_dir, Ok(found), r),
        forall|i: int| 0 <= i < found@.len() ==> (#[trigger] found_outcome(found@[i])) is Ok,
        r is Err,
    ensures
        ({
            let names = names_of(gathered(found@));
            exists|n: Seq<char>|
                #![trigger "duplicate scenario name `"@ + n + "`"@]
                {
                    &&& r->Err_0@ == "duplicate scenario name `"@ + n + "`"@
                    &&& exists|i: int, j: int|
                        0 <= i < j < names.len() && #[trigger] names[i] == n && #[trigger] names[j] == n
                    &&& forall|i: int, j: int|
                        0 <= i < j < names.len() && #[trigger] names[i] == #[trigger] names[j] ==> !text_less(names[i], n)
                }
        }),
{
    let errors = found_errors(found@);
    lemma_first_error(found@.len() as int, 0, errors);
    assert forall|i: int| 0 <= i < found@.len() implies (#[trigger] errors(i)) is None by {
        assert(found_outcome(found@[i]) is Ok);
    }
    let names = names_of(gathered(found@));
    let n = choose|n: Seq<char>| #[trigger]
        least_repeated(names, n) && r->Err_0@ == "duplicate scenario name `"@ + n + "`"@;
    lemma_repeated(names, n);
    assert forall|i: int, j: int|
        0 <= i < j < names.len() && #[trigger] names[i] == #[trigger] names[j] implies !text_less(names[i], n) by {
        lemma_repeated(names, names[i]);
        assert(repeated(names, names[i]));
    }
}

} // verus!
