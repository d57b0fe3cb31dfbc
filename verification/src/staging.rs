//! Staging projects: a fresh copy of a project for every scenario.

use vstd::prelude::*;

use crate::paths::{below, join_below, law_below_is_injective};
use crate::text::{cat2, cat4, cat5, decimal, decimal_text, is_digit, lemma_decimal, same};
use crate::version::slice_text;

verus! {

/// A staged project directory.
#[derive(Debug)]
pub struct StagedProject(String);

/// The name of the directory that a project is staged in.
pub open spec fn staging_name(name: Seq<char>, pid: nat, id: nat) -> Seq<char> {
    "beamtalk-uat-"@ + name + "-"@ + decimal(pid) + ("-"@ + decimal(id))
}

/// Whether an entry of a project is left out of its staged copy: build
/// artifacts and version control metadata.
pub open spec fn left_out(name: Option<Seq<char>>) -> bool {
    name == Some("_build"@) || name == Some(".git"@)
}

impl StagedProject {
    /// Where the project is staged.
    pub closed spec fn dir(&self) -> Seq<char> {
        self.0@
    }

    /// The project that is staged in `dir`.
    pub fn new(dir: String) -> (r: Self)
        ensures
            r.dir() == dir@,
    {
        StagedProject(dir)
    }

    /// Where the project is staged.
    pub fn path(&self) -> (r: &str)
        ensures
            r@ == self.dir(),
    {
        self.0.as_str()
    }
}

/// The stagings of a process, which are numbered one after the other.
pub struct Stagings {
    pid: u32,
    next: u64,
    names: Ghost<Seq<Seq<char>>>,
}

impl Stagings {
    /// The process that stages.
    pub closed spec fn pid(&self) -> nat {
        self.pid as nat
    }

    /// How many projects were staged.
    pub closed spec fn count(&self) -> nat {
        self.next as nat
    }

    /// The names of the directories that were given out, in order.
    pub closed spec fn names(&self) -> Seq<Seq<char>> {
        self.names@
    }

    /// The invariant: no number was given out twice.
    pub open spec fn wf(&self) -> bool {
        &&& self.names().len() == self.count()
        &&& forall|i: int|
            0 <= i < self.names().len() ==> is_staging_name(#[trigger] self.names()[i], self.pid(), i as nat)
    }

    /// The stagings of the process `pid`, of which there are none yet.
    pub fn new(pid: u32) -> (r: Self)
        ensures
            r.wf(),
            r.pid() == pid,
            r.count() == 0,
            r.names() == Seq::<Seq<char>>::empty(),
    {
        Stagings { pid, next: 0, names: Ghost(Seq::empty()) }
    }
}

/// Whether `dir` is the name of the directory of staging `id`, whichever the
/// project is.
pub open spec fn is_staging_name(dir: Seq<char>, pid: nat, id: nat) -> bool {
    exists|name: Seq<char>| dir == #[trigger] staging_name(name, pid, id)
}

/// Stage the project `name` in a fresh directory below `temp`. An error where
/// its source `src` is no directory.
///
/// No two stagings of a process share a directory, be it of one project or of
/// two.
pub fn stage_project(
    stagings: &mut Stagings,
    name: &str,
    src: &str,
    is_dir: bool,
    temp: &str,
    windows: bool,
) -> (r: Result<StagedProject, String>)
    requires
        old(stagings).wf(),
        old(stagings).count() < u64::MAX,
    ensures
        final(stagings).wf(),
        final(stagings).pid() == old(stagings).pid(),
        if is_dir {
            let dir = staging_name(name@, old(stagings).pid(), old(stagings).count());
            &&& r matches Ok(s) && s.dir() == below(temp@, dir, windows)
            &&& final(stagings).count() == old(stagings).count() + 1
            &&& final(stagings).names() == old(stagings).names().push(dir)
            &&& !old(stagings).names().contains(dir)
        } else {
            &&& r matches Err(e) && e@ == "project not found: "@ + src@
            &&& *final(stagings) == *old(stagings)
        },
{
    if !is_dir {
        return Err(cat2("project not found: ", src));
    }
    let p = decimal_text(stagings.pid as u64);
    let i = decimal_text(stagings.next);
    let tail = cat2("-", i.as_str());
    let dir = cat5("beamtalk-uat-", name, "-", p.as_str(), tail.as_str());
    let path = join_below(temp, dir.as_str(), windows);
    proof {
        let pid = stagings.pid();
        let count = stagings.count();
        assert(dir@ == staging_name(name@, pid, count));
        if stagings.names().contains(dir@) {
            let k = choose|k: int| 0 <= k < stagings.names().len() && stagings.names()[k] == dir@;
            assert(is_staging_name(stagings.names()[k], pid, k as nat));
            let other = choose|other: Seq<char>| dir@ == #[trigger] staging_name(other, pid, k as nat);
            law_stagings_are_apart(name@, pid, count, other, pid, k as nat);
        }
        assert(is_staging_name(dir@, pid, count));
    }
    let names: Ghost<Seq<Seq<char>>> = Ghost(stagings.names@.push(dir@));
    stagings.next = stagings.next + 1;
    stagings.names = names;
    Ok(StagedProject::new(path))
}

/// The message of a project that could not be copied.
pub fn staging_failed(name: &str, error: &str) -> (r: String)
    ensures
        r@ == "staging project "@ + name@ + ": "@ + error@,
{
    cat4("staging project ", name, ": ", error)
}

/// Whether an entry of a project is left out of its staged copy. `name` is its
/// name, where that is UTF-8.
pub fn is_left_out(name: Option<&str>) -> (r: bool)
    ensures
        r == left_out(slice_text(name)),
{
    match name {
        Some(n) => same(n, "_build") || same(n, ".git"),
        None => false,
    }
}

/// What stands in front of the last dash and what stands behind it can be told
/// apart, where the latter is a number.
proof fn lemma_last_number(a: Seq<char>, m: nat, b: Seq<char>, n: nat)
    requires
        a + "-"@ + decimal(m) == b + "-"@ + decimal(n),
    ensures
        a == b,
        m == n,
{
    reveal_strlit("-");
    lemma_decimal(m);
    lemma_decimal(n);
    let x = a + "-"@ + decimal(m);
    let y = b + "-"@ + decimal(n);
    let p = decimal(m).len();
    let q = decimal(n).len();
    if p < q {
        let k = x.len() - p - 1;
        assert(x[k] == '-');
        assert(y[k] == decimal(n)[k - b.len() - 1]);
        assert(is_digit(decimal(n)[k - b.len() - 1]));
    } else if q < p {
        let k = y.len() - q - 1;
        assert(y[k] == '-');
        assert(x[k] == decimal(m)[k - a.len() - 1]);
        assert(is_digit(decimal(m)[k - a.len() - 1]));
    }
    assert(x.skip(x.len() - p) =~= decimal(m));
    assert(y.skip(y.len() - q) =~= decimal(n));
    assert(x.take(a.len() as int) =~= a);
    assert(y.take(b.len() as int) =~= b);
}

/// No two stagings share a directory: a different project, process or number
/// gives a different name.
pub proof fn law_stagings_are_apart(a: Seq<char>, p: nat, i: nat, b: Seq<char>, q: nat, j: nat)
    requires
        staging_name(a, p, i) == staging_name(b, q, j),
    ensures
        a == b,
        p == q,
        i == j,
{
    let x = "beamtalk-uat-"@ + a;
    let y = "beamtalk-uat-"@ + b;
    let xp = x + "-"@ + decimal(p);
    let yq = y + "-"@ + decimal(q);
    assert(staging_name(a, p, i) =~= xp + "-"@ + decimal(i));
    assert(staging_name(b, q, j) =~= yq + "-"@ + decimal(j));
    lemma_last_number(xp, i, yq, j);
    lemma_last_number(x, p, y, q);
    let n = "beamtalk-uat-"@.len() as int;
    assert(x.skip(n) =~= a);
    assert(y.skip(n) =~= b);
}

/// Over a whole process no directory is given out twice.
pub proof fn law_no_staging_twice(stagings: Stagings)
    requires
        stagings.wf(),
    ensures
        stagings.names().no_duplicates(),
{
    let names = stagings.names();
    assert forall|i: int, j: int| 0 <= i < names.len() && 0 <= j < names.len() && i != j implies names[i]
        != names[j] by {
        if names[i] == names[j] {
            let pid = stagings.pid();
            assert(is_staging_name(names[i], pid, i as nat) && is_staging_name(names[j], pid, j as nat));
            let a = choose|a: Seq<char>| names[i] == #[trigger] staging_name(a, pid, i as nat);
            let b = choose|b: Seq<char>| names[j] == #[trigger] staging_name(b, pid, j as nat);
            law_stagings_are_apart(a, pid, i as nat, b, pid, j as nat);
        }
    }
}

/// Any two stagings of a process are in different places of the directory for
/// temporary files.
pub proof fn law_staged_paths_are_apart(stagings: Stagings, temp: Seq<char>, windows: bool, i: int, j: int)
    requires
        stagings.wf(),
        0 <= i < stagings.names().len(),
        0 <= j < stagings.names().len(),
        i != j,
    ensures
        below(temp, stagings.names()[i], windows) != below(temp, stagings.names()[j], windows),
{
    law_no_staging_twice(stagings);
    if below(temp, stagings.names()[i], windows) == below(temp, stagings.names()[j], windows) {
        law_below_is_injective(temp, stagings.names()[i], stagings.names()[j], windows);
    }
}

/// What is left out of a staged copy: `_build` and `.git`, and nothing else.
pub proof fn law_left_out(name: Seq<char>)
    ensures
        left_out(Some(name)) <==> name == "_build"@ || name == ".git"@,
        !left_out(None),
{
}

/// The directory that a project is staged in is named after it, the process and
/// the number of the staging, in this order.
pub proof fn law_staging_name(name: Seq<char>, pid: nat, id: nat)
    ensures
        staging_name(name, pid, id) == "beamtalk-uat-"@ + name + "-"@ + decimal(pid) + "-"@ + decimal(id),
{
    let head = "beamtalk-uat-"@ + name + "-"@ + decimal(pid);
    assert(head + ("-"@ + decimal(id)) =~= head + "-"@ + decimal(id));
}

} // verus!
