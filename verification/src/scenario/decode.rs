//! From the tables of an `expect.toml` to scenarios as written: which value
//! each key takes, and the errors for values of the wrong type.

use vstd::prelude::*;

use crate::document::{entries_of, trees_of, Entry, Node, Tree};
use crate::scenario::keys::{
    find_entry, is_step_key, lookup, scenario_shape_error, step_key, step_shape_error,
    step_shape_errors, Rows,
};
use crate::scenario::model::{step_models, surface_text, Step, StepModel, Surface};
use crate::text::{
    cat2, cat3, cat4, contains, debug_text, first_error, lemma_first_error, occurs, quoted, same,
    signed_decimal, signed_text, text_of, verdict,
};

verus! {

// ── Model ───────────────────────────────────────────────────────────────────

/// A float's text, with a decimal point where the float is finite.
pub open spec fn with_point(s: Seq<char>) -> Seq<char> {
    if s == "inf"@ || s == "-inf"@ || s == "NaN"@ || occurs(s, "."@) {
        s
    } else {
        s + ".0"@
    }
}

/// How a message names a value that it did not expect.
pub open spec fn unexpected(v: Tree) -> Seq<char> {
    match v {
        Tree::Str(s) => "string "@ + debug_text(s),
        Tree::Int(n) => "integer `"@ + signed_decimal(n as int) + "`"@,
        Tree::Float(s) => "floating point `"@ + with_point(s) + "`"@,
        Tree::Bool(b) => if b {
            "boolean `true`"@
        } else {
            "boolean `false`"@
        },
        Tree::Datetime(s) => "string "@ + debug_text(s),
        Tree::Array(_) => "sequence"@,
        Tree::Table(_) => "map"@,
    }
}

/// What is wrong with `v` as a string, if anything. A date-time counts as a
/// string: its text.
pub open spec fn string_error(v: Tree) -> Option<Seq<char>> {
    match v {
        Tree::Str(_) => None,
        Tree::Datetime(_) => None,
        _ => Some("invalid type: "@ + unexpected(v) + ", expected a string"@),
    }
}

/// What is wrong with `v` as an integer from `lo` to `hi`, if anything.
pub open spec fn int_error(v: Tree, lo: int, hi: int, ty: Seq<char>) -> Option<Seq<char>> {
    match v {
        Tree::Int(n) => if lo <= n <= hi {
            None
        } else {
            Some("invalid value: "@ + unexpected(v) + ", expected "@ + ty)
        },
        _ => Some("invalid type: "@ + unexpected(v) + ", expected "@ + ty),
    }
}

/// What is wrong with the value `v` of a step's key, if anything.
pub open spec fn value_error(key: Seq<char>, v: Tree) -> Option<Seq<char>> {
    if !step_key(key) {
        None
    } else if key == "exit_code"@ {
        int_error(v, i32::MIN as int, i32::MAX as int, "i32"@)
    } else if key == "line"@ || key == "character"@ {
        int_error(v, 0, u32::MAX as int, "u32"@)
    } else {
        string_error(v)
    }
}

/// A decoding error as it is shown: the message, and where it stands.
pub open spec fn shown(message: Seq<char>, path: Seq<char>) -> Seq<char> {
    if path.len() == 0 {
        message + "\n"@
    } else {
        message + "\nin `"@ + path + "`\n"@
    }
}

/// `key` below `base`.
pub open spec fn under(base: Seq<char>, key: Seq<char>) -> Seq<char> {
    if base.len() == 0 {
        key
    } else {
        base + "."@ + key
    }
}

/// The string under `key`.
pub open spec fn text_at(t: Rows, key: Seq<char>) -> Option<Seq<char>> {
    match lookup(t, key) {
        Some(Tree::Str(s)) => Some(s),
        Some(Tree::Datetime(s)) => Some(s),
        _ => None,
    }
}

/// The `i32` under `key`.
pub open spec fn i32_at(t: Rows, key: Seq<char>) -> Option<i32> {
    match lookup(t, key) {
        Some(Tree::Int(n)) => if i32::MIN <= n <= i32::MAX {
            Some(n as i32)
        } else {
            None
        },
        _ => None,
    }
}

/// The `u32` under `key`.
pub open spec fn u32_at(t: Rows, key: Seq<char>) -> Option<u32> {
    match lookup(t, key) {
        Some(Tree::Int(n)) => if 0 <= n <= u32::MAX {
            Some(n as u32)
        } else {
            None
        },
        _ => None,
    }
}

/// The step that a table spells out.
pub open spec fn step_at(t: Rows) -> StepModel {
    StepModel {
        entrypoint: text_at(t, "entrypoint"@),
        args: text_at(t, "args"@),
        setup: text_at(t, "setup"@),
        cwd: text_at(t, "cwd"@),
        stdout: text_at(t, "stdout"@),
        stdout_contains: text_at(t, "stdout_contains"@),
        stderr_contains: text_at(t, "stderr_contains"@),
        exit_code: i32_at(t, "exit_code"@),
        lsp_method: text_at(t, "method"@),
        source: text_at(t, "source"@),
        line: u32_at(t, "line"@),
        character: u32_at(t, "character"@),
        response_contains: text_at(t, "response_contains"@),
        tool: text_at(t, "tool"@),
        code: text_at(t, "code"@),
        arguments: text_at(t, "arguments"@),
    }
}

/// What is wrong with each value of a step's table.
pub open spec fn step_value_errors(t: Rows, path: Seq<char>) -> spec_fn(int) -> Option<Seq<char>> {
    |i: int|
        match value_error(t[i].0, t[i].1) {
            Some(e) => Some(shown(e, under(path, t[i].0))),
            None => None,
        }
}

/// What is wrong with the values of a step's table, if anything.
pub open spec fn step_value_error(t: Rows, path: Seq<char>) -> Option<Seq<char>> {
    first_error(t.len() as int, 0, step_value_errors(t, path))
}

/// What is wrong with each step of a sequence.
pub open spec fn sequence_errors(a: Seq<Tree>, path: Seq<char>) -> spec_fn(int) -> Option<Seq<char>> {
    |i: int| step_value_error(a[i]->Table_0, path)
}

/// The surface that a name stands for.
pub open spec fn surface_named(s: Seq<char>) -> Option<Surface> {
    if s == surface_text(Surface::Bunit) {
        Some(Surface::Bunit)
    } else if s == surface_text(Surface::Run) {
        Some(Surface::Run)
    } else if s == surface_text(Surface::Cli) {
        Some(Surface::Cli)
    } else if s == surface_text(Surface::Lsp) {
        Some(Surface::Lsp)
    } else if s == surface_text(Surface::Mcp) {
        Some(Surface::Mcp)
    } else {
        None
    }
}

/// The surface that a name stands for, or what is wrong with the name.
pub open spec fn surface_or_error(s: Seq<char>) -> Result<Surface, Seq<char>> {
    match surface_named(s) {
        Some(x) => Ok(x),
        None => Err(
            "unknown variant `"@ + s + "`, expected one of `bunit`, `run`, `cli`, `lsp`, `mcp`"@,
        ),
    }
}

/// What is wrong with the value of a one-key table that names a surface, if
/// anything: it must be empty.
pub open spec fn payload_error(v: Tree) -> Option<Seq<char>> {
    match v {
        Tree::Array(a) => if a.len() == 0 {
            None
        } else {
            Some("expected empty array"@)
        },
        Tree::Table(t) => if t.len() == 0 {
            None
        } else {
            Some("expected empty table"@)
        },
        Tree::Str(_) => Some("expected table, found string"@),
        Tree::Int(_) => Some("expected table, found integer"@),
        Tree::Float(_) => Some("expected table, found float"@),
        Tree::Bool(_) => Some("expected table, found boolean"@),
        Tree::Datetime(_) => Some("expected table, found datetime"@),
    }
}

/// The surface that a value stands for, or what is wrong with the value. Beside
/// the plain name, a table with the name as its only key and an empty value
/// will do.
pub open spec fn surface_of(v: Tree) -> Result<Surface, Seq<char>> {
    match v {
        Tree::Str(s) => surface_or_error(s),
        Tree::Table(t) => if t.len() == 0 {
            Err("wanted exactly 1 element, found 0 elements"@)
        } else if t.len() != 1 {
            Err("wanted exactly 1 element, more than 1 element"@)
        } else {
            match surface_or_error(t[0].0) {
                Err(e) => Err(e),
                Ok(x) => match payload_error(t[0].1) {
                    Some(e) => Err(e),
                    None => Ok(x),
                },
            }
        },
        _ => Err("invalid type: unit variant, expected string only"@),
    }
}

/// What is wrong with one of the scenario-level keys, if anything.
pub open spec fn head_error(key: Seq<char>, v: Tree, base: Seq<char>) -> Option<Seq<char>> {
    if key == "name"@ {
        match string_error(v) {
            Some(e) => Some(shown(e, under(base, key))),
            None => None,
        }
    } else if key == "surface"@ {
        match surface_of(v) {
            Err(e) => Some(shown(e, under(base, key))),
            Ok(_) => None,
        }
    } else if key == "step"@ {
        first_error(
            v->Array_0.len() as int,
            0,
            sequence_errors(v->Array_0, under(base, key)),
        )
    } else {
        None
    }
}

/// What is wrong with each scenario-level key of a table.
pub open spec fn head_errors(t: Rows, base: Seq<char>) -> spec_fn(int) -> Option<Seq<char>> {
    |i: int| head_error(t[i].0, lookup(t, t[i].0)->0, base)
}

/// Whether the `step` key, if there is one, holds an array of tables.
pub open spec fn steps_are_tables(t: Rows) -> bool {
    match lookup(t, "step"@) {
        None => true,
        Some(Tree::Array(a)) => forall|i: int| 0 <= i < a.len() ==> (#[trigger] a[i]) is Table,
        Some(_) => false,
    }
}

/// A table whose keys are in order has `step` tables, if any.
pub proof fn lemma_steps_are_tables(t: Rows, dir: Seq<char>)
    requires
        scenario_shape_error(t, dir) is None,
    ensures
        steps_are_tables(t),
{
    match lookup(t, "step"@) {
        Some(Tree::Array(a)) => {
            let errors = step_shape_errors(a, dir);
            lemma_first_error(a.len() as int, 0, errors);
            assert forall|i: int| 0 <= i < a.len() implies (#[trigger] a[i]) is Table by {
                assert(errors(i) is None);
                assert(step_shape_error(a[i], dir) is None);
            }
        },
        _ => {},
    }
}

/// What is wrong with each inline value of a scenario's table.
pub open spec fn action_errors(t: Rows, base: Seq<char>) -> spec_fn(int) -> Option<Seq<char>> {
    |i: int|
        match value_error(t[i].0, t[i].1) {
            Some(e) => Some(shown(e, base)),
            None => None,
        }
}

/// A scenario as written: a surface, an optional name, the inline fields of a
/// single step, and a `[[step]]` sequence.
#[verifier::ext_equal]
pub struct RawModel {
    pub name: Option<Seq<char>>,
    pub surface: Surface,
    pub action: StepModel,
    pub step: Seq<StepModel>,
}

/// What is wrong with the values of a scenario's table, if anything. `base` is
/// where the table stands in the document.
pub open spec fn raw_error(t: Rows, base: Seq<char>) -> Option<Seq<char>> {
    let head = first_error(t.len() as int, 0, head_errors(t, base));
    if head is Some {
        head
    } else if lookup(t, "surface"@) is None {
        Some(shown("missing field `surface`"@, base))
    } else {
        first_error(t.len() as int, 0, action_errors(t, base))
    }
}

/// The `[[step]]` sequence of a scenario's table.
pub open spec fn sequence_at(t: Rows) -> Seq<StepModel> {
    match lookup(t, "step"@) {
        Some(Tree::Array(a)) => a.map_values(|v: Tree| step_at(v->Table_0)),
        _ => Seq::empty(),
    }
}

/// The scenario that a table spells out.
pub open spec fn raw_at(t: Rows) -> RawModel {
    RawModel {
        name: text_at(t, "name"@),
        surface: surface_of(lookup(t, "surface"@)->0)->Ok_0,
        action: step_at(t),
        step: sequence_at(t),
    }
}

// ── Decoding ────────────────────────────────────────────────────────────────

/// A scenario as written.
pub struct RawScenario {
    /// The name, for the fan-out form.
    pub name: Option<String>,
    /// The surface.
    pub surface: Surface,
    /// The inline fields of a single step.
    pub action: Step,
    /// The `[[step]]` sequence.
    pub step: Vec<Step>,
}

impl View for RawScenario {
    type V = RawModel;

    open spec fn view(&self) -> RawModel {
        RawModel {
            name: text_of(self.name),
            surface: self.surface,
            action: self.action@,
            step: step_models(self.step@),
        }
    }
}

/// A float's text, with a decimal point where the float is finite.
fn point_text(s: &String) -> (r: String)
    ensures
        r@ == with_point(s@),
{
    if same(s.as_str(), "inf") || same(s.as_str(), "-inf") || same(s.as_str(), "NaN") || contains(
        s.as_str(),
        ".",
    ) {
        s.clone()
    } else {
        cat2(s.as_str(), ".0")
    }
}

/// How a message names a value that it did not expect.
fn unexpected_text(v: &Node) -> (r: String)
    ensures
        r@ == unexpected(v@),
{
    match v {
        Node::Str(s) => cat2("string ", quoted(s.as_str()).as_str()),
        Node::Int(n) => cat3("integer `", signed_text(*n).as_str(), "`"),
        Node::Float(s) => cat3("floating point `", point_text(s).as_str(), "`"),
        Node::Bool(b) => if *b {
            "boolean `true`".to_owned()
        } else {
            "boolean `false`".to_owned()
        },
        Node::Datetime(s) => cat2("string ", quoted(s.as_str()).as_str()),
        Node::Array(_) => "sequence".to_owned(),
        Node::Table(_) => "map".to_owned(),
    }
}

/// Checks that a value is a string.
fn check_string(v: &Node) -> (r: Result<(), String>)
    ensures
        verdict(r) == string_error(v@),
{
    match v {
        Node::Str(_) => Ok(()),
        Node::Datetime(_) => Ok(()),
        _ => Err(cat3("invalid type: ", unexpected_text(v).as_str(), ", expected a string")),
    }
}

/// Checks that a value is an integer from `lo` to `hi`.
fn check_int(v: &Node, lo: i64, hi: i64, ty: &str) -> (r: Result<(), String>)
    ensures
        verdict(r) == int_error(v@, lo as int, hi as int, ty@),
{
    match v {
        Node::Int(n) => if lo <= *n && *n <= hi {
            Ok(())
        } else {
            Err(cat4("invalid value: ", unexpected_text(v).as_str(), ", expected ", ty))
        },
        _ => Err(cat4("invalid type: ", unexpected_text(v).as_str(), ", expected ", ty)),
    }
}

/// Checks the value of a step's key.
fn check_value(key: &str, v: &Node) -> (r: Result<(), String>)
    ensures
        verdict(r) == value_error(key@, v@),
{
    if !is_step_key(key) {
        Ok(())
    } else if same(key, "exit_code") {
        check_int(v, -2147483648, 2147483647, "i32")
    } else if same(key, "line") || same(key, "character") {
        check_int(v, 0, 4294967295, "u32")
    } else {
        check_string(v)
    }
}

/// A decoding error as it is shown.
fn show(message: &str, path: &str) -> (r: String)
    ensures
        r@ == shown(message@, path@),
{
    if path.is_empty() {
        cat2(message, "\n")
    } else {
        cat4(message, "\nin `", path, "`\n")
    }
}

/// `key` below `base`.
fn below(base: &str, key: &str) -> (r: String)
    ensures
        r@ == under(base@, key@),
{
    if base.is_empty() {
        key.to_owned()
    } else {
        cat3(base, ".", key)
    }
}

/// The string under `key`.
fn text_field(t: &Vec<Entry>, key: &str) -> (r: Option<String>)
    ensures
        text_of(r) == text_at(entries_of(t@), key@),
{
    match find_entry(t, key) {
        Some(Node::Str(s)) => Some(s.clone()),
        Some(Node::Datetime(s)) => Some(s.clone()),
        _ => None,
    }
}

/// The `i32` under `key`.
fn i32_field(t: &Vec<Entry>, key: &str) -> (r: Option<i32>)
    ensures
        r == i32_at(entries_of(t@), key@),
{
    match find_entry(t, key) {
        Some(Node::Int(n)) => if -2147483648 <= *n && *n <= 2147483647 {
            Some(*n as i32)
        } else {
            None
        },
        _ => None,
    }
}

/// The `u32` under `key`.
fn u32_field(t: &Vec<Entry>, key: &str) -> (r: Option<u32>)
    ensures
        r == u32_at(entries_of(t@), key@),
{
    match find_entry(t, key) {
        Some(Node::Int(n)) => if 0 <= *n && *n <= 4294967295 {
            Some(*n as u32)
        } else {
            None
        },
        _ => None,
    }
}

/// The step that a table spells out.
fn read_step(t: &Vec<Entry>) -> (s: Step)
    ensures
        s@ == step_at(entries_of(t@)),
{
    Step {
        entrypoint: text_field(t, "entrypoint"),
        args: text_field(t, "args"),
        setup: text_field(t, "setup"),
        cwd: text_field(t, "cwd"),
        stdout: text_field(t, "stdout"),
        stdout_contains: text_field(t, "stdout_contains"),
        stderr_contains: text_field(t, "stderr_contains"),
        exit_code: i32_field(t, "exit_code"),
        lsp_method: text_field(t, "method"),
        source: text_field(t, "source"),
        line: u32_field(t, "line"),
        character: u32_field(t, "character"),
        response_contains: text_field(t, "response_contains"),
        tool: text_field(t, "tool"),
        code: text_field(t, "code"),
        arguments: text_field(t, "arguments"),
    }
}

/// Decodes one table of a `step` array.
fn decode_step(t: &Vec<Entry>, path: &str) -> (r: Result<Step, String>)
    ensures
        match r {
            Ok(s) => step_value_error(entries_of(t@), path@) is None && s@ == step_at(entries_of(t@)),
            Err(e) => step_value_error(entries_of(t@), path@) == Some(e@),
        },
{
    let ghost rows = entries_of(t@);
    let ghost errors = step_value_errors(rows, path@);
    let mut i: usize = 0;
    while i < t.len()
        invariant
            i <= t@.len(),
            rows == entries_of(t@),
            errors == step_value_errors(rows, path@),
            first_error(rows.len() as int, i as int, errors) == first_error(
                rows.len() as int,
                0,
                errors,
            ),
        decreases t.len() - i,
    {
        let key = t[i].key.as_str();
        assert(rows[i as int] == (key@, t@[i as int].value@));
        match check_value(key, &t[i].value) {
            Ok(_) => {},
            Err(e) => {
                return Err(show(e.as_str(), below(path, key).as_str()));
            },
        }
        i += 1;
    }
    Ok(read_step(t))
}

/// Decodes the elements of a `step` array.
fn decode_sequence(a: &Vec<Node>, path: &str) -> (r: Result<Vec<Step>, String>)
    requires
        forall|i: int| 0 <= i < a@.len() ==> (#[trigger] trees_of(a@)[i]) is Table,
    ensures
        match r {
            Ok(v) => {
                &&& first_error(a@.len() as int, 0, sequence_errors(trees_of(a@), path@)) is None
                &&& step_models(v@) == trees_of(a@).map_values(|v: Tree| step_at(v->Table_0))
            },
            Err(e) => first_error(a@.len() as int, 0, sequence_errors(trees_of(a@), path@)) == Some(
                e@,
            ),
        },
{
    let ghost items = trees_of(a@);
    let ghost errors = sequence_errors(items, path@);
    let ghost want = items.map_values(|v: Tree| step_at(v->Table_0));
    let mut out: Vec<Step> = Vec::new();
    let mut i: usize = 0;
    while i < a.len()
        invariant
            i <= a@.len(),
            items == trees_of(a@),
            forall|i: int| 0 <= i < a@.len() ==> (#[trigger] items[i]) is Table,
            errors == sequence_errors(items, path@),
            want == items.map_values(|v: Tree| step_at(v->Table_0)),
            step_models(out@) == want.take(i as int),
            first_error(items.len() as int, i as int, errors) == first_error(
                items.len() as int,
                0,
                errors,
            ),
        decreases a.len() - i,
    {
        let ghost before = step_models(out@);
        assert(items[i as int] == a@[i as int]@);
        match &a[i] {
            Node::Table(t) => {
                match decode_step(t, path) {
                    Ok(s) => {
                        out.push(s);
                        assert(step_models(out@) =~= before.push(s@));
                        assert(want.take(i + 1) =~= before.push(s@));
                    },
                    Err(e) => {
                        return Err(e);
                    },
                }
            },
            _ => {
                assert(false);
            },
        }
        i += 1;
    }
    assert(want.take(i as int) =~= want);
    Ok(out)
}

/// The surface that a name stands for.
fn parse_surface(s: &str) -> (r: Result<Surface, String>)
    ensures
        match r {
            Ok(x) => surface_or_error(s@) == Ok::<Surface, Seq<char>>(x),
            Err(e) => surface_or_error(s@) == Err::<Surface, Seq<char>>(e@),
        },
{
    if same(s, "bunit") {
        Ok(Surface::Bunit)
    } else if same(s, "run") {
        Ok(Surface::Run)
    } else if same(s, "cli") {
        Ok(Surface::Cli)
    } else if same(s, "lsp") {
        Ok(Surface::Lsp)
    } else if same(s, "mcp") {
        Ok(Surface::Mcp)
    } else {
        Err(
            cat3(
                "unknown variant `",
                s,
                "`, expected one of `bunit`, `run`, `cli`, `lsp`, `mcp`",
            ),
        )
    }
}

/// Checks that the value of a one-key table that names a surface is empty.
fn check_payload(v: &Node) -> (r: Result<(), String>)
    ensures
        verdict(r) == payload_error(v@),
{
    match v {
        Node::Array(a) => if a.len() == 0 {
            Ok(())
        } else {
            Err("expected empty array".to_owned())
        },
        Node::Table(t) => if t.len() == 0 {
            Ok(())
        } else {
            Err("expected empty table".to_owned())
        },
        Node::Str(_) => Err("expected table, found string".to_owned()),
        Node::Int(_) => Err("expected table, found integer".to_owned()),
        Node::Float(_) => Err("expected table, found float".to_owned()),
        Node::Bool(_) => Err("expected table, found boolean".to_owned()),
        Node::Datetime(_) => Err("expected table, found datetime".to_owned()),
    }
}

/// The surface that a value stands for.
fn decode_surface(v: &Node) -> (r: Result<Surface, String>)
    ensures
        match r {
            Ok(x) => surface_of(v@) == Ok::<Surface, Seq<char>>(x),
            Err(e) => surface_of(v@) == Err::<Surface, Seq<char>>(e@),
        },
{
    match v {
        Node::Str(s) => parse_surface(s.as_str()),
        Node::Table(t) => if t.len() == 0 {
            Err("wanted exactly 1 element, found 0 elements".to_owned())
        } else if t.len() != 1 {
            Err("wanted exactly 1 element, more than 1 element".to_owned())
        } else {
            assert(entries_of(t@)[0] == (t@[0].key@, t@[0].value@));
            match parse_surface(t[0].key.as_str()) {
                Err(e) => Err(e),
                Ok(x) => match check_payload(&t[0].value) {
                    Err(e) => Err(e),
                    Ok(_) => Ok(x),
                },
            }
        },
        _ => Err("invalid type: unit variant, expected string only".to_owned()),
    }
}

/// What is found stands in one of the rows.
proof fn lemma_lookup_row(t: Rows, key: Seq<char>)
    requires
        lookup(t, key) is Some,
    ensures
        exists|i: int| 0 <= i < t.len() && (#[trigger] t[i]).0 == key,
    decreases t.len(),
{
    if t[0].0 != key {
        lemma_lookup_row(t.drop_first(), key);
        let k = choose|k: int| 0 <= k < t.drop_first().len() && (#[trigger] t.drop_first()[k]).0 == key;
        assert(t[k + 1].0 == key);
    }
}

/// What stands in a row is found.
proof fn lemma_row_lookup(t: Rows, i: int)
    requires
        0 <= i < t.len(),
    ensures
        lookup(t, t[i].0) is Some,
    decreases t.len(),
{
    if t[0].0 != t[i].0 {
        assert(t.drop_first()[i - 1] == t[i]);
        lemma_row_lookup(t.drop_first(), i - 1);
    }
}

/// Decodes one scenario-level key; other keys pass.
fn check_head(t: &Vec<Entry>, key: &str, base: &str) -> (r: Result<(), String>)
    requires
        steps_are_tables(entries_of(t@)),
        lookup(entries_of(t@), key@) is Some,
    ensures
        verdict(r) == head_error(key@, lookup(entries_of(t@), key@)->0, base@),
{
    let ghost rows = entries_of(t@);
    if same(key, "name") {
        match find_entry(t, key) {
            Some(v) => match check_string(v) {
                Ok(_) => Ok(()),
                Err(e) => Err(show(e.as_str(), below(base, key).as_str())),
            },
            None => Ok(()),
        }
    } else if same(key, "surface") {
        match find_entry(t, key) {
            Some(v) => match decode_surface(v) {
                Ok(_) => Ok(()),
                Err(e) => Err(show(e.as_str(), below(base, key).as_str())),
            },
            None => Ok(()),
        }
    } else if same(key, "step") {
        match find_entry(t, key) {
            Some(Node::Array(a)) => {
                assert(lookup(rows, "step"@) == Some(Tree::Array(trees_of(a@))));
                match decode_sequence(a, below(base, key).as_str()) {
                    Ok(_) => Ok(()),
                    Err(e) => Err(e),
                }
            },
            _ => Ok(()),
        }
    } else {
        Ok(())
    }
}

/// Decodes the table of one scenario. `base` is where the table stands in the
/// document.
pub fn decode_scenario(t: &Vec<Entry>, base: &str) -> (r: Result<RawScenario, String>)
    requires
        steps_are_tables(entries_of(t@)),
    ensures
        match r {
            Ok(raw) => raw_error(entries_of(t@), base@) is None && raw@ == raw_at(entries_of(t@)),
            Err(e) => raw_error(entries_of(t@), base@) == Some(e@),
        },
{
    let ghost rows = entries_of(t@);
    let ghost heads = head_errors(rows, base@);
    let mut i: usize = 0;
    while i < t.len()
        invariant
            i <= t@.len(),
            rows == entries_of(t@),
            steps_are_tables(rows),
            heads == head_errors(rows, base@),
            first_error(rows.len() as int, i as int, heads) == first_error(
                rows.len() as int,
                0,
                heads,
            ),
        decreases t.len() - i,
    {
        let key = t[i].key.as_str();
        proof {
            assert(rows[i as int].0 == key@);
            lemma_row_lookup(rows, i as int);
        }
        match check_head(t, key, base) {
            Ok(_) => {},
            Err(e) => {
                return Err(e);
            },
        }
        i += 1;
    }
    proof {
        lemma_first_error(rows.len() as int, 0, heads);
    }
    let surface = match find_entry(t, "surface") {
        None => {
            return Err(show("missing field `surface`", base));
        },
        Some(v) => match decode_surface(v) {
            Ok(x) => x,
            Err(e) => {
                proof {
                    lemma_lookup_row(rows, "surface"@);
                    let k = choose|k: int|
                        0 <= k < rows.len() && (#[trigger] rows[k]).0 == "surface"@;
                    assert(heads(k) is None);
                    assert("surface"@ != "name"@) by {
                        reveal_strlit("surface");
                        reveal_strlit("name");
                    }
                    assert(false);
                }
                return Err(e);
            },
        },
    };
    let ghost actions = action_errors(rows, base@);
    let mut k: usize = 0;
    while k < t.len()
        invariant
            k <= t@.len(),
            rows == entries_of(t@),
            heads == head_errors(rows, base@),
            actions == action_errors(rows, base@),
            first_error(rows.len() as int, 0, heads) is None,
            lookup(rows, "surface"@) is Some,
            first_error(rows.len() as int, k as int, actions) == first_error(
                rows.len() as int,
                0,
                actions,
            ),
        decreases t.len() - k,
    {
        let key = t[k].key.as_str();
        assert(rows[k as int] == (key@, t@[k as int].value@));
        match check_value(key, &t[k].value) {
            Ok(_) => {},
            Err(e) => {
                return Err(show(e.as_str(), base));
            },
        }
        k += 1;
    }
    let step: Vec<Step> = match find_entry(t, "step") {
        Some(Node::Array(a)) => {
            assert(lookup(rows, "step"@) == Some(Tree::Array(trees_of(a@))));
            match decode_sequence(a, below(base, "step").as_str()) {
                Ok(v) => v,
                Err(e) => {
                    proof {
                        lemma_lookup_row(rows, "step"@);
                        let k = choose|k: int|
                            0 <= k < rows.len() && (#[trigger] rows[k]).0 == "step"@;
                        assert(heads(k) is None);
                        assert("step"@ != "name"@ && "step"@ != "surface"@) by {
                            reveal_strlit("surface");
                            reveal_strlit("step");
                            reveal_strlit("name");
                            assert("step"@[0] != "name"@[0]);
                        }
                        assert(false);
                    }
                    return Err(e);
                },
            }
        },
        _ => {
            let none: Vec<Step> = Vec::new();
            assert(step_models(none@) =~= Seq::empty());
            none
        },
    };
    Ok(RawScenario { name: text_field(t, "name"), surface, action: read_step(t), step })
}

} // verus!
