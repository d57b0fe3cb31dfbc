//! TOML documents: the `toml` crate parses them, and what a document holds is
//! carried on as plain values.

use vstd::prelude::*;

verus! {

// ── Model ───────────────────────────────────────────────────────────────────

/// What a TOML value holds.
pub enum Tree {
    /// A string.
    Str(Seq<char>),
    /// An integer.
    Int(i64),
    /// A float, by its text.
    Float(Seq<char>),
    /// A boolean.
    Bool(bool),
    /// A date-time, by its text.
    Datetime(Seq<char>),
    /// An array.
    Array(Seq<Tree>),
    /// A table: its keys and values, in the order in which the table is walked.
    Table(Seq<(Seq<char>, Tree)>),
}

/// A TOML value.
pub enum Node {
    /// A string.
    Str(String),
    /// An integer.
    Int(i64),
    /// A float, by its text.
    Float(String),
    /// A boolean.
    Bool(bool),
    /// A date-time, by its text.
    Datetime(String),
    /// An array.
    Array(Vec<Node>),
    /// A table.
    Table(Vec<Entry>),
}

/// A key of a table, with its value.
pub struct Entry {
    /// The key.
    pub key: String,
    /// The value.
    pub value: Node,
}

impl View for Node {
    type V = Tree;

    open spec fn view(&self) -> Tree {
        tree_of(*self)
    }
}

/// What `n` holds.
pub open spec fn tree_of(n: Node) -> Tree
    decreases n,
{
    match n {
        Node::Str(s) => Tree::Str(s@),
        Node::Int(i) => Tree::Int(i),
        Node::Float(s) => Tree::Float(s@),
        Node::Bool(b) => Tree::Bool(b),
        Node::Datetime(s) => Tree::Datetime(s@),
        Node::Array(v) => Tree::Array(trees_of(v@)),
        Node::Table(v) => Tree::Table(entries_of(v@)),
    }
}

/// What each of `v` holds.
pub open spec fn trees_of(v: Seq<Node>) -> Seq<Tree>
    decreases v,
{
    Seq::new(v.len(), |i: int| if 0 <= i < v.len() { tree_of(v[i]) } else { arbitrary() })
}

/// The keys and what their values hold.
pub open spec fn entries_of(v: Seq<Entry>) -> Seq<(Seq<char>, Tree)>
    decreases v,
{
    Seq::new(
        v.len(),
        |i: int| if 0 <= i < v.len() { (v[i].key@, tree_of(v[i].value)) } else { arbitrary() },
    )
}

/// The keys of a table, in order.
pub open spec fn keys_of(rows: Seq<(Seq<char>, Tree)>) -> Seq<Seq<char>> {
    rows.map_values(|e: (Seq<char>, Tree)| e.0)
}

/// Whether no table of a value has a key twice.
pub open spec fn distinct_keys(t: Tree) -> bool
    decreases t,
{
    match t {
        Tree::Array(a) => forall|i: int| 0 <= i < a.len() ==> distinct_keys(#[trigger] a[i]),
        Tree::Table(rows) => {
            &&& keys_of(rows).no_duplicates()
            &&& forall|i: int| 0 <= i < rows.len() ==> distinct_keys((#[trigger] rows[i]).1)
        },
        _ => true,
    }
}

// ── The `toml` crate ────────────────────────────────────────────────────────

/// A value of the `toml` crate.
#[verifier::external_type_specification]
#[verifier::external_body]
pub struct ExTomlValue(toml::Value);

/// What a value of the `toml` crate holds.
pub uninterp spec fn toml_tree(v: toml::Value) -> Tree;

/// What the `toml` crate makes of a document: its value, or the text of the
/// error.
pub uninterp spec fn toml_document(text: Seq<char>) -> Result<Tree, Seq<char>>;

/// One level of a value of the `toml` crate.
enum Level {
    Str(String),
    Int(i64),
    Float(String),
    Bool(bool),
    Datetime(String),
    Array(Vec<toml::Value>),
    Table(Vec<(String, toml::Value)>),
}

/// What one level of a value holds, and what is below it.
spec fn level_tree(l: Level) -> Tree {
    match l {
        Level::Str(s) => Tree::Str(s@),
        Level::Int(i) => Tree::Int(i),
        Level::Float(s) => Tree::Float(s@),
        Level::Bool(b) => Tree::Bool(b),
        Level::Datetime(s) => Tree::Datetime(s@),
        Level::Array(v) => Tree::Array(v@.map_values(|x: toml::Value| toml_tree(x))),
        Level::Table(v) => Tree::Table(
            v@.map_values(|e: (String, toml::Value)| (e.0@, toml_tree(e.1))),
        ),
    }
}

/// Parses a TOML document.
///
/// Trusted: what `toml::from_str` gives, the value or the text of the error, is
/// a function of the text alone. Which documents are valid, and what their
/// values are, is left unsaid.
#[verifier::external_body]
fn toml_value(text: &str) -> (r: Result<toml::Value, String>)
    ensures
        (match r {
            Ok(v) => Ok(toml_tree(v)),
            Err(e) => Err(e@),
        }) == toml_document(text@),
{
    toml::from_str(text).map_err(|e: toml::de::Error| e.to_string())
}

/// Takes one level off a value.
///
/// Trusted: a `toml::Value` holds what its variant holds. A float and a
/// date-time are taken by their `Display` text, and a table by the entries of
/// its `into_iter`, in that order; it is a map, and has no key twice.
#[verifier::external_body]
fn open_value(v: toml::Value) -> (l: Level)
    ensures
        level_tree(l) == toml_tree(v),
        level_tree(l) matches Tree::Table(rows) ==> keys_of(rows).no_duplicates(),
{
    match v {
        toml::Value::String(s) => Level::Str(s),
        toml::Value::Integer(i) => Level::Int(i),
        toml::Value::Float(f) => Level::Float(f.to_string()),
        toml::Value::Boolean(b) => Level::Bool(b),
        toml::Value::Datetime(d) => Level::Datetime(d.to_string()),
        toml::Value::Array(a) => Level::Array(a),
        toml::Value::Table(t) => Level::Table(t.into_iter().collect()),
    }
}

/// The plain form of a value of the `toml` crate.
fn node_of(v: toml::Value) -> (n: Node)
    ensures
        n@ == toml_tree(v),
        distinct_keys(n@),
    decreases toml_tree(v),
{
    match open_value(v) {
        Level::Str(s) => Node::Str(s),
        Level::Int(i) => Node::Int(i),
        Level::Float(s) => Node::Float(s),
        Level::Bool(b) => Node::Bool(b),
        Level::Datetime(s) => Node::Datetime(s),
        Level::Array(a) => {
            let ghost items = a@.map_values(|x: toml::Value| toml_tree(x));
            let mut out: Vec<Node> = Vec::new();
            for x in it: a
                invariant
                    it.seq() == a@,
                    items == a@.map_values(|x: toml::Value| toml_tree(x)),
                    toml_tree(v) == Tree::Array(items),
                    trees_of(out@) == items.take(it.index() as int),
                    forall|j: int| 0 <= j < it.index() ==> distinct_keys(#[trigger] items[j]),
            {
                let ghost k = it.index() as int;
                proof {
                    assert(toml_tree(x) == items[k]);
                    assert(decreases_to!(toml_tree(v) => toml_tree(v)->Array_0));
                    assert(decreases_to!(items => items[k]));
                }
                let ghost before = trees_of(out@);
                let n = node_of(x);
                out.push(n);
                assert(trees_of(out@) =~= before.push(n@));
                assert(items.take(k + 1) =~= before.push(n@));
            }
            assert(items.take(items.len() as int) =~= items);
            Node::Array(out)
        },
        Level::Table(t) => {
            let ghost items = t@.map_values(|e: (String, toml::Value)| (e.0@, toml_tree(e.1)));
            let mut out: Vec<Entry> = Vec::new();
            for e in it: t
                invariant
                    it.seq() == t@,
                    items == t@.map_values(|e: (String, toml::Value)| (e.0@, toml_tree(e.1))),
                    toml_tree(v) == Tree::Table(items),
                    entries_of(out@) == items.take(it.index() as int),
                    keys_of(items).no_duplicates(),
                    forall|j: int| 0 <= j < it.index() ==> distinct_keys((#[trigger] items[j]).1),
            {
                let ghost k = it.index() as int;
                proof {
                    assert((e.0@, toml_tree(e.1)) == items[k]);
                    assert(decreases_to!(toml_tree(v) => toml_tree(v)->Table_0));
                    assert(decreases_to!(items => items[k]));
                    assert(decreases_to!(items[k] => items[k].1));
                }
                let ghost before = entries_of(out@);
                let next = Entry { key: e.0, value: node_of(e.1) };
                out.push(next);
                assert(entries_of(out@) =~= before.push((next.key@, next.value@)));
                assert(items.take(k + 1) =~= before.push((next.key@, next.value@)));
            }
            assert(items.take(items.len() as int) =~= items);
            Node::Table(out)
        },
    }
}

/// Parses a TOML document into plain values.
pub fn parse_document(text: &str) -> (r: Result<Node, String>)
    ensures
        (match r {
            Ok(n) => Ok(n@),
            Err(e) => Err(e@),
        }) == toml_document(text@),
        r matches Ok(n) ==> distinct_keys(n@),
{
    match toml_value(text) {
        Ok(v) => Ok(node_of(v)),
        Err(e) => Err(e),
    }
}

} // verus!
