//! JSON-RPC messages: what a request and a notification look like on the wire,
//! and how the reply to a request is told from other messages.

use vstd::prelude::*;

use crate::lsp::escape::{escaped, escaped_char, lemma_escaped_concat};
use crate::text::{
    cat3, cat5, chars_of, decimal, is_digit, lemma_decimal, lemma_signed_injective, occurs_at, signed_decimal,
    signed_text, stands_at,
};

verus! {

/// A notification: no `id`, so no reply is expected.
pub open spec fn notification(method: Seq<char>, params: Seq<char>) -> Seq<char> {
    r#"{"jsonrpc":"2.0","method":""#@ + method + r#"","params":"#@ + params + "}"@
}

/// A request that is to be answered under `id`.
pub open spec fn request(id: int, method: Seq<char>, params: Seq<char>) -> Seq<char> {
    r#"{"jsonrpc":"2.0","id":"#@ + signed_decimal(id) + (r#","method":""#@ + method + r#"","params":"#@ + params
        + "}"@)
}

/// Where a walk through a message stands: how many braces are open, whether it
/// is inside a string literal, and whether a backslash precedes the next
/// character there.
#[derive(Debug, Clone, Copy, PartialEq, Eq, Structural)]
pub enum Place {
    /// Outside string literals, inside so many braces.
    Outside { depth: usize },
    /// Inside a string literal.
    Inside { depth: usize, escaped: bool },
}

/// Where the walk stands behind `c`. A brace that closes nothing is passed
/// over.
pub open spec fn place_behind(p: Place, c: char) -> Place {
    match p {
        Place::Outside { depth } => if c == '"' {
            Place::Inside { depth, escaped: false }
        } else if c == '{' {
            Place::Outside { depth: (depth + 1) as usize }
        } else if c == '}' && depth > 0 {
            Place::Outside { depth: (depth - 1) as usize }
        } else {
            p
        },
        Place::Inside { depth, escaped } => if escaped {
            Place::Inside { depth, escaped: false }
        } else if c == '\\' {
            Place::Inside { depth, escaped: true }
        } else if c == '"' {
            Place::Outside { depth }
        } else {
            p
        },
    }
}

/// Where the walk stands in front of the character at `i`.
pub open spec fn place_at(msg: Seq<char>, i: int) -> Place
    decreases i,
{
    if i <= 0 {
        Place::Outside { depth: 0 }
    } else {
        place_behind(place_at(msg, i - 1), msg[i - 1])
    }
}

/// Whether `c` is whitespace between the tokens of JSON.
pub open spec fn json_white(c: char) -> bool {
    c == ' ' || c == '\t' || c == '\n' || c == '\r'
}

/// Where the run of whitespace that begins at `k` ends.
pub open spec fn white_end(msg: Seq<char>, k: int) -> int
    decreases msg.len() - k,
{
    if 0 <= k < msg.len() && json_white(msg[k]) {
        white_end(msg, k + 1)
    } else {
        k
    }
}

/// Whether the key `"id"` of the message itself stands at `i`, with its colon:
/// outside string literals, and inside one brace.
pub open spec fn id_key_at(msg: Seq<char>, i: int) -> bool {
    &&& occurs_at(msg, r#""id":"#@, i)
    &&& place_at(msg, i) == (Place::Outside { depth: 1 })
}

/// Whether the whole of the number `id` stands at `k`: no further digit
/// follows.
pub open spec fn number_at(msg: Seq<char>, id: int, k: int) -> bool {
    let end = k + signed_decimal(id).len();
    &&& occurs_at(msg, signed_decimal(id), k)
    &&& end < msg.len() ==> !is_digit(msg[end])
}

/// Whether the key `"id"` of the message itself stands at `i` and is `id`.
pub open spec fn id_at(msg: Seq<char>, id: int, i: int) -> bool {
    id_key_at(msg, i) && number_at(msg, id, white_end(msg, i + 5))
}

/// Whether the top-level id of `msg` is `id`.
pub open spec fn top_level_id(msg: Seq<char>, id: int) -> bool {
    exists|i: int| id_at(msg, id, i)
}

/// A request, ready to be sent.
#[derive(Debug)]
pub struct Sent {
    /// The id that the reply carries.
    pub id: i64,
    /// The method that is asked for.
    pub method: String,
    /// What goes to the server.
    pub text: String,
}

/// What a request says.
#[verifier::ext_equal]
pub struct SentModel {
    pub id: int,
    pub method: Seq<char>,
    pub text: Seq<char>,
}

impl View for Sent {
    type V = SentModel;

    open spec fn view(&self) -> SentModel {
        SentModel { id: self.id as int, method: self.method@, text: self.text@ }
    }
}

/// A handshake: the request to send, and the notification to send once it is
/// answered.
#[derive(Debug)]
pub struct Handshake {
    /// The `initialize` request.
    pub request: Sent,
    /// The notification that ends the handshake.
    pub acknowledge: String,
}

/// What a handshake says.
#[verifier::ext_equal]
pub struct HandshakeModel {
    pub request: SentModel,
    pub acknowledge: Seq<char>,
}

impl View for Handshake {
    type V = HandshakeModel;

    open spec fn view(&self) -> HandshakeModel {
        HandshakeModel { request: self.request@, acknowledge: self.acknowledge@ }
    }
}

/// What came from a server while a reply was awaited.
#[derive(Debug)]
pub enum Received {
    /// A message.
    Message(String),
    /// Nothing, for as long as one waits.
    TimedOut,
    /// Nothing, and nothing will come any more.
    Disconnected,
}

/// What came from a server while a reply was awaited.
pub enum ReceivedModel {
    Message(Seq<char>),
    TimedOut,
    Disconnected,
}

impl View for Received {
    type V = ReceivedModel;

    open spec fn view(&self) -> ReceivedModel {
        match *self {
            Received::Message(m) => ReceivedModel::Message(m@),
            Received::TimedOut => ReceivedModel::TimedOut,
            Received::Disconnected => ReceivedModel::Disconnected,
        }
    }
}

/// The text of a notification.
pub fn notification_text(method: &str, params: &str) -> (r: String)
    ensures
        r@ == notification(method@, params@),
{
    cat5(r#"{"jsonrpc":"2.0","method":""#, method, r#"","params":"#, params, "}")
}

/// The text of a request.
pub fn request_text(id: i64, method: &str, params: &str) -> (r: String)
    ensures
        r@ == request(id as int, method@, params@),
{
    let number = signed_text(id);
    let tail = cat5(r#","method":""#, method, r#"","params":"#, params, "}");
    cat3(r#"{"jsonrpc":"2.0","id":"#, number.as_str(), tail.as_str())
}

/// Whether a message carries the top-level `"id":<id>` of the request that was
/// sent, tolerating whitespace after the colon, which some servers emit.
///
/// The match is aware of digit boundaries, so that request id `2` does not
/// match a response for id `20`.
pub fn message_has_id(msg: &str, id: i64) -> (r: bool)
    ensures
        r == top_level_id(msg@, id as int),
{
    let m = chars_of(msg);
    let n = m.len();
    let key = chars_of(r#""id":"#);
    let number_text = signed_text(id);
    let number = chars_of(number_text.as_str());
    let mut place = Place::Outside { depth: 0 };
    let mut i: usize = 0;
    proof {
        reveal_strlit(r#""id":"#);
    }
    while i < n
        invariant
            i <= n,
            n == m@.len(),
            m@ == msg@,
            key@ == r#""id":"#@,
            key@.len() == 5,
            number@ == signed_decimal(id as int),
            place == place_at(m@, i as int),
            depth_of(place) <= i,
            forall|k: int| k < i ==> !#[trigger] id_at(m@, id as int, k),
        decreases n - i,
    {
        let top = match place {
            Place::Outside { depth } => depth == 1,
            Place::Inside { .. } => false,
        };
        if top && stands_at(&m, &key, i) && stands_whole(&m, &number, skip_white(&m, i + 5)) {
            assert(id_at(m@, id as int, i as int));
            return true;
        }
        assert(!id_at(m@, id as int, i as int));
        place = step(place, m[i]);
        i += 1;
    }
    assert forall|k: int| !#[trigger] id_at(m@, id as int, k) by {}
    false
}

/// How many braces are open.
pub open spec fn depth_of(p: Place) -> int {
    match p {
        Place::Outside { depth } => depth as int,
        Place::Inside { depth, escaped: _ } => depth as int,
    }
}

/// Where the walk stands behind `c`.
fn step(p: Place, c: char) -> (r: Place)
    requires
        depth_of(p) < usize::MAX,
    ensures
        r == place_behind(p, c),
        depth_of(r) <= depth_of(p) + 1,
{
    match p {
        Place::Outside { depth } => {
            if c == '"' {
                Place::Inside { depth, escaped: false }
            } else if c == '{' {
                Place::Outside { depth: depth + 1 }
            } else if c == '}' && depth > 0 {
                Place::Outside { depth: depth - 1 }
            } else {
                p
            }
        },
        Place::Inside { depth, escaped } => {
            if escaped {
                Place::Inside { depth, escaped: false }
            } else if c == '\\' {
                Place::Inside { depth, escaped: true }
            } else if c == '"' {
                Place::Outside { depth }
            } else {
                p
            }
        },
    }
}

/// Where the run of whitespace that begins at `from` ends.
fn skip_white(m: &Vec<char>, from: usize) -> (r: usize)
    requires
        from <= m@.len(),
    ensures
        r == white_end(m@, from as int),
        from <= r <= m@.len(),
{
    let n = m.len();
    let mut k: usize = from;
    while k < n && (m[k] == ' ' || m[k] == '\t' || m[k] == '\n' || m[k] == '\r')
        invariant
            from <= k <= n,
            n == m@.len(),
            white_end(m@, from as int) == white_end(m@, k as int),
        decreases n - k,
    {
        k += 1;
    }
    k
}

/// Whether `number` stands at `k` with no further digit behind it.
fn stands_whole(m: &Vec<char>, number: &Vec<char>, k: usize) -> (r: bool)
    requires
        k <= m@.len(),
    ensures
        r == (occurs_at(m@, number@, k as int) && (k + number@.len() < m@.len() ==> !is_digit(
            m@[k + number@.len()],
        ))),
{
    let n = m.len();
    if !stands_at(m, number, k) {
        return false;
    }
    let end = k + number.len();
    end >= n || !('0' <= m[end] && m[end] <= '9')
}

/// What a reply is.
pub open spec fn reply_model(r: Option<Result<String, String>>) -> Option<Result<Seq<char>, Seq<char>>> {
    match r {
        Some(Ok(m)) => Some(Ok(m@)),
        Some(Err(e)) => Some(Err(e@)),
        None => None,
    }
}

/// What becomes of the request `id` when `received` comes: the matching
/// response, one of two errors, or nothing yet.
pub open spec fn reply_of(
    received: ReceivedModel,
    id: int,
    timed_out: Seq<char>,
    exited: Seq<char>,
) -> Option<Result<Seq<char>, Seq<char>>> {
    match received {
        ReceivedModel::Message(msg) => if top_level_id(msg, id) {
            Some(Ok(msg))
        } else {
            None
        },
        ReceivedModel::TimedOut => Some(Err(timed_out)),
        ReceivedModel::Disconnected => Some(Err(exited)),
    }
}

/// What becomes of the request `id` over all that comes from a server, and how
/// much of it has been taken by then: one after the other is taken until there
/// is a reply.
pub open spec fn awaited(
    stream: Seq<ReceivedModel>,
    id: int,
    timed_out: Seq<char>,
    exited: Seq<char>,
) -> Option<(Result<Seq<char>, Seq<char>>, int)>
    decreases stream.len(),
{
    if stream.len() == 0 {
        None
    } else {
        match reply_of(stream[0], id, timed_out, exited) {
            Some(r) => Some((r, 1)),
            None => match awaited(stream.drop_first(), id, timed_out, exited) {
                Some((r, n)) => Some((r, n + 1)),
                None => None,
            },
        }
    }
}

// ── Laws ────────────────────────────────────────────────────────────────────

/// The first message that carries the id is the reply, and all before it are
/// dropped: whatever else the server sends is skipped, and nothing behind the
/// reply is taken.
pub proof fn law_first_reply_counts(
    stream: Seq<ReceivedModel>,
    id: int,
    timed_out: Seq<char>,
    exited: Seq<char>,
    k: int,
)
    requires
        0 <= k < stream.len(),
        forall|i: int|
            0 <= i < k ==> (#[trigger] stream[i] matches ReceivedModel::Message(m) && !top_level_id(m, id)),
    ensures
        match stream[k] {
            ReceivedModel::Message(m) => top_level_id(m, id) ==> awaited(stream, id, timed_out, exited) == Some(
                (Ok::<Seq<char>, Seq<char>>(m), k + 1),
            ),
            ReceivedModel::TimedOut => awaited(stream, id, timed_out, exited) == Some(
                (Err::<Seq<char>, Seq<char>>(timed_out), k + 1),
            ),
            ReceivedModel::Disconnected => awaited(stream, id, timed_out, exited) == Some(
                (Err::<Seq<char>, Seq<char>>(exited), k + 1),
            ),
        },
    decreases k,
{
    if k > 0 {
        let rest = stream.drop_first();
        assert(stream[0] matches ReceivedModel::Message(m) && !top_level_id(m, id));
        assert forall|i: int| 0 <= i < k - 1 implies (#[trigger] rest[i] matches ReceivedModel::Message(m)
            && !top_level_id(m, id)) by {
            assert(rest[i] == stream[i + 1]);
        }
        assert(rest[k - 1] == stream[k]);
        law_first_reply_counts(rest, id, timed_out, exited, k - 1);
    }
}

/// What is returned as the reply is one of the messages, carries the id, and
/// none before it does.
pub proof fn law_reply_is_first(
    stream: Seq<ReceivedModel>,
    id: int,
    timed_out: Seq<char>,
    exited: Seq<char>,
    m: Seq<char>,
    n: int,
)
    requires
        awaited(stream, id, timed_out, exited) == Some((Ok::<Seq<char>, Seq<char>>(m), n)),
    ensures
        0 < n <= stream.len(),
        stream[n - 1] == ReceivedModel::Message(m),
        top_level_id(m, id),
        forall|i: int|
            0 <= i < n - 1 ==> (#[trigger] stream[i] matches ReceivedModel::Message(x) && !top_level_id(x, id)),
    decreases stream.len(),
{
    if reply_of(stream[0], id, timed_out, exited) is None {
        let rest = stream.drop_first();
        law_reply_is_first(rest, id, timed_out, exited, m, n - 1);
        assert forall|i: int| 0 <= i < n - 1 implies (#[trigger] stream[i] matches ReceivedModel::Message(x)
            && !top_level_id(x, id)) by {
            if i > 0 {
                assert(stream[i] == rest[i - 1]);
                assert(rest[i - 1] matches ReceivedModel::Message(x) && !top_level_id(x, id));
            }
        }
    }
}

/// At one place at most one number stands.
proof fn lemma_one_number(msg: Seq<char>, a: int, b: int, k: int)
    requires
        number_at(msg, a, k),
        number_at(msg, b, k),
    ensures
        a == b,
{
    if signed_decimal(a).len() <= signed_decimal(b).len() {
        lemma_shorter_number(msg, a, b, k);
    } else {
        lemma_shorter_number(msg, b, a, k);
    }
}

/// The number that reads shorter is the one that reads longer.
proof fn lemma_shorter_number(msg: Seq<char>, a: int, b: int, k: int)
    requires
        number_at(msg, a, k),
        number_at(msg, b, k),
        signed_decimal(a).len() <= signed_decimal(b).len(),
    ensures
        a == b,
{
    let x = signed_decimal(a);
    let y = signed_decimal(b);
    let magnitude = (if b < 0 { -b } else { b }) as nat;
    lemma_decimal(magnitude);
    lemma_decimal((if a < 0 { -a } else { a }) as nat);
    let mx = msg.subrange(k, k + x.len());
    let my = msg.subrange(k, k + y.len());
    assert forall|i: int| 0 <= i < x.len() implies x[i] == #[trigger] y[i] by {
        assert(mx[i] == x[i]);
        assert(my[i] == y[i]);
    }
    if x.len() < y.len() {
        let i = x.len() as int;
        assert(my[i] == y[i]);
        assert(msg[k + i] == y[i]);
        if b < 0 {
            assert(y[i] == decimal(magnitude)[i - 1]);
        }
        assert(is_digit(y[i]));
    } else {
        assert(x =~= y);
        lemma_signed_injective(a, b);
    }
}

/// A message that has one top-level `"id"` answers one request at most: the
/// reply to one request is not taken for the reply to another, whatever ids
/// stand further inside.
pub proof fn law_one_id(msg: Seq<char>, a: int, b: int)
    requires
        forall|i: int, j: int| #[trigger] id_key_at(msg, i) && #[trigger] id_key_at(msg, j) ==> i == j,
        top_level_id(msg, a),
        top_level_id(msg, b),
    ensures
        a == b,
{
    let i = choose|i: int| id_at(msg, a, i);
    let j = choose|j: int| id_at(msg, b, j);
    assert(id_key_at(msg, i) && id_key_at(msg, j));
    lemma_one_number(msg, a, b, white_end(msg, i + 5));
}

/// The walk through the front of a message does not depend on what follows.
proof fn lemma_place_prefix(a: Seq<char>, b: Seq<char>, i: int)
    requires
        0 <= i <= a.len(),
    ensures
        place_at(a + b, i) == place_at(a, i),
    decreases i,
{
    if i > 0 {
        lemma_place_prefix(a, b, i - 1);
        assert((a + b)[i - 1] == a[i - 1]);
    }
}

/// A run of whitespace ends where something else stands.
proof fn lemma_white_run(before: Seq<char>, run: Seq<char>, after: Seq<char>, k: int)
    requires
        0 <= k <= run.len(),
        forall|i: int| 0 <= i < run.len() ==> json_white(#[trigger] run[i]),
        after.len() > 0 ==> !json_white(after[0]),
    ensures
        white_end(before + run + after, before.len() + k) == before.len() + run.len(),
    decreases run.len() - k,
{
    let msg = before + run + after;
    if k < run.len() {
        assert(msg[before.len() + k] == run[k]);
        lemma_white_run(before, run, after, k + 1);
    } else if after.len() > 0 {
        assert(msg[(before.len() + k) as int] == after[0]);
    }
}

/// A message whose top-level `"id"` is a number has that id, however much
/// whitespace stands behind the colon: the reply to a request is recognised.
pub proof fn law_id_found(before: Seq<char>, run: Seq<char>, id: int, after: Seq<char>)
    requires
        place_at(before, before.len() as int) == (Place::Outside { depth: 1 }),
        forall|i: int| 0 <= i < run.len() ==> json_white(#[trigger] run[i]),
        after.len() > 0 ==> !is_digit(after[0]),
    ensures
        top_level_id(before + r#""id":"#@ + run + signed_decimal(id) + after, id),
{
    reveal_strlit(r#""id":"#);
    let key = r#""id":"#@;
    let number = signed_decimal(id);
    lemma_decimal((if id < 0 { -id } else { id }) as nat);
    if id >= 0 {
        assert(is_digit(number[0]));
    }
    let whole = before + key + run + number + after;
    let i = before.len() as int;
    assert(whole.subrange(i, i + 5) =~= key);
    assert(whole =~= before + (key + run + number + after));
    lemma_place_prefix(before, key + run + number + after, i);
    assert(whole =~= (before + key) + run + (number + after));
    lemma_white_run(before + key, run, number + after, 0);
    let k = i + 5 + run.len();
    assert(white_end(whole, i + 5) == k);
    assert(whole.subrange(k, k + number.len()) =~= number);
    assert(id_at(whole, id, i));
}

/// A request is recognised by its own id: a peer that echoes it back has
/// answered it.
pub proof fn law_request_carries_id(id: int, method: Seq<char>, params: Seq<char>)
    ensures
        top_level_id(request(id, method, params), id),
{
    reveal_strlit(r#"{"jsonrpc":"2.0","id":"#);
    reveal_strlit(r#"{"jsonrpc":"2.0","#);
    reveal_strlit(r#""id":"#);
    reveal_strlit(r#","method":""#);
    let rest = r#","method":""#@ + method + r#"","params":"#@ + params + "}"@;
    let front = r#"{"jsonrpc":"2.0","#@;
    let none = Seq::<char>::empty();
    reveal_with_fuel(place_at, 18);
    assert(place_at(front, front.len() as int) == (Place::Outside { depth: 1 }));
    law_id_found(front, none, id, rest);
    assert(r#"{"jsonrpc":"2.0","id":"#@ =~= front + r#""id":"#@);
    assert(request(id, method, params) =~= front + r#""id":"#@ + none + signed_decimal(id) + rest);
}

/// The walk behind a text and another is the walk through the other from where
/// the first left it, character by character.
proof fn lemma_place_step(a: Seq<char>, c: char, b: Seq<char>)
    ensures
        place_at(a + seq![c] + b, (a.len() + 1) as int) == place_behind(place_at(a, a.len() as int), c),
{
    let whole = a + seq![c] + b;
    assert(whole =~= a + (seq![c] + b));
    lemma_place_prefix(a, seq![c] + b, a.len() as int);
    assert(whole[a.len() as int] == c);
}

/// Whether all of `s` is passed over outside string literals: no quote and no
/// brace.
pub open spec fn plain(s: Seq<char>) -> bool {
    forall|i: int| 0 <= i < s.len() ==> #[trigger] s[i] != '"' && s[i] != '{' && s[i] != '}'
}

/// What is plain leaves the walk where it is.
proof fn lemma_plain(a: Seq<char>, s: Seq<char>, d: usize)
    requires
        plain(s),
        place_at(a, a.len() as int) == (Place::Outside { depth: d }),
    ensures
        place_at(a + s, (a + s).len() as int) == (Place::Outside { depth: d }),
    decreases s.len(),
{
    if s.len() == 0 {
        assert(a + s =~= a);
    } else {
        let front = s.drop_last();
        assert forall|i: int| 0 <= i < front.len() implies #[trigger] front[i] != '"' && front[i] != '{' && front[i]
            != '}' by {
            assert(front[i] == s[i]);
        }
        lemma_plain(a, front, d);
        assert(s.last() == s[s.len() - 1]);
        lemma_place_step(a + front, s.last(), Seq::empty());
        assert(a + front + seq![s.last()] + Seq::<char>::empty() =~= a + s);
    }
}

/// The inside of a string literal, however much of it is escaped, leaves the
/// walk inside the literal.
proof fn lemma_inside(a: Seq<char>, s: Seq<char>, d: usize)
    requires
        place_at(a, a.len() as int) == (Place::Inside { depth: d, escaped: false }),
    ensures
        place_at(a + escaped(s), (a + escaped(s)).len() as int) == (Place::Inside { depth: d, escaped: false }),
    decreases s.len(),
{
    if s.len() == 0 {
        assert(a + escaped(s) =~= a);
    } else {
        let front = s.drop_last();
        let e = escaped_char(s.last());
        lemma_inside(a, front, d);
        lemma_escaped_concat(front, seq![s.last()]);
        assert(front + seq![s.last()] =~= s);
        assert(seq![s.last()].drop_first() =~= Seq::<char>::empty());
        assert(escaped(seq![s.last()].drop_first()) =~= Seq::<char>::empty());
        assert(escaped(seq![s.last()]) =~= e);
        let b = a + escaped(front);
        assert(a + escaped(s) =~= b + e);
        lemma_inside_char(b, s.last(), d);
    }
}

/// One character of a literal.
proof fn lemma_inside_char(b: Seq<char>, c: char, d: usize)
    requires
        place_at(b, b.len() as int) == (Place::Inside { depth: d, escaped: false }),
    ensures
        place_at(b + escaped_char(c), (b + escaped_char(c)).len() as int) == (Place::Inside { depth: d, escaped: false }),
{
    let e = escaped_char(c);
    let none = Seq::<char>::empty();
    lemma_place_step(b, e[0], none);
    assert(b + seq![e[0]] + none =~= b + seq![e[0]]);
    if e.len() == 1 {
        assert(b + e =~= b + seq![e[0]]);
    } else {
        lemma_place_step(b + seq![e[0]], e[1], none);
        assert(b + seq![e[0]] + seq![e[1]] + none =~= b + seq![e[0], e[1]]);
        if e.len() == 2 {
            assert(b + e =~= b + seq![e[0], e[1]]);
        } else {
            assert(e.len() == 6);
            let x = b + seq![e[0], e[1]];
            lemma_place_step(x, e[2], none);
            assert(x + seq![e[2]] + none =~= x + seq![e[2]]);
            lemma_place_step(x + seq![e[2]], e[3], none);
            let y = x + seq![e[2]] + seq![e[3]];
            assert(y + none =~= y);
            lemma_place_step(y, e[4], none);
            assert(y + seq![e[4]] + none =~= y + seq![e[4]]);
            lemma_place_step(y + seq![e[4]], e[5], none);
            assert(y + seq![e[4]] + seq![e[5]] + none =~= b + e);
        }
    }
}

/// The walk passes over a string literal as over nothing, whatever text it is
/// the literal of.
pub proof fn law_literal_is_passed_over(before: Seq<char>, s: Seq<char>, depth: usize)
    requires
        place_at(before, before.len() as int) == (Place::Outside { depth }),
    ensures
        ({
            let whole = before + seq!['"'] + escaped(s) + seq!['"'];
            place_at(whole, whole.len() as int) == (Place::Outside { depth })
        }),
{
    let none = Seq::<char>::empty();
    lemma_place_step(before, '"', none);
    assert(before + seq!['"'] + none =~= before + seq!['"']);
    lemma_inside(before + seq!['"'], s, depth);
    let b = before + seq!['"'] + escaped(s);
    lemma_place_step(b, '"', none);
    assert(b + seq!['"'] + none =~= b + seq!['"']);
}

/// Braces nest, and what has neither a brace nor a quote makes no difference.
pub proof fn law_braces_nest(before: Seq<char>, s: Seq<char>, depth: usize)
    requires
        place_at(before, before.len() as int) == (Place::Outside { depth }),
        depth < usize::MAX,
        plain(s),
    ensures
        place_at(Seq::<char>::empty(), 0) == (Place::Outside { depth: 0 }),
        place_at(before + s, (before + s).len() as int) == (Place::Outside { depth }),
        place_at(before + seq!['{'], (before + seq!['{']).len() as int) == (Place::Outside { depth: (depth + 1) as usize }),
        depth > 0 ==> place_at(before + seq!['}'], (before + seq!['}']).len() as int) == (Place::Outside {
            depth: (depth - 1) as usize,
        }),
{
    let none = Seq::<char>::empty();
    lemma_plain(before, s, depth);
    lemma_place_step(before, '{', none);
    lemma_place_step(before, '}', none);
    assert(before + seq!['{'] + none =~= before + seq!['{']);
    assert(before + seq!['}'] + none =~= before + seq!['}']);
}

/// A message answers a request only with an `"id"` that is a key of the message
/// itself: it stands inside one brace and outside string literals, and behind its
/// colon, and whitespace at most, comes the whole of the number.
pub proof fn law_id_is_top_level(msg: Seq<char>, id: int)
    requires
        top_level_id(msg, id),
    ensures
        exists|before: Seq<char>, run: Seq<char>, after: Seq<char>|
            #![trigger before + r#""id":"#@ + run + signed_decimal(id) + after]
            {
                &&& msg == before + r#""id":"#@ + run + signed_decimal(id) + after
                &&& place_at(before, before.len() as int) == (Place::Outside { depth: 1 })
                &&& forall|i: int| 0 <= i < run.len() ==> json_white(#[trigger] run[i])
                &&& after.len() > 0 ==> !is_digit(after[0])
            },
{
    reveal_strlit(r#""id":"#);
    let key = r#""id":"#@;
    let i = choose|i: int| id_at(msg, id, i);
    let k = white_end(msg, i + 5);
    lemma_white_end(msg, i + 5);
    let number = signed_decimal(id);
    let before = msg.take(i);
    let run = msg.subrange(i + 5, k);
    let after = msg.skip(k + number.len());
    assert(msg.subrange(i, i + 5) == key);
    assert(msg.subrange(k, k + number.len()) == number);
    assert(msg =~= before + key + run + number + after);
    assert(msg =~= before + msg.skip(i));
    lemma_place_prefix(before, msg.skip(i), i);
    assert forall|j: int| 0 <= j < run.len() implies json_white(#[trigger] run[j]) by {
        assert(run[j] == msg[i + 5 + j]);
    }
}

/// A run of whitespace is whitespace.
proof fn lemma_white_end(msg: Seq<char>, k: int)
    requires
        0 <= k <= msg.len(),
    ensures
        k <= white_end(msg, k) <= msg.len(),
        forall|i: int| k <= i < white_end(msg, k) ==> json_white(#[trigger] msg[i]),
    decreases msg.len() - k,
{
    if k < msg.len() && json_white(msg[k]) {
        lemma_white_end(msg, k + 1);
    }
}

/// What is whitespace between the tokens of JSON.
pub proof fn law_json_white(c: char)
    ensures
        json_white(c) <==> seq![' ', '\t', '\n', '\r'].contains(c),
{
    let all = seq![' ', '\t', '\n', '\r'];
    assert(all[0] == ' ' && all[1] == '\t' && all[2] == '\n' && all[3] == '\r');
}

/// A message, a timeout and a server that is gone: what becomes of a request with
/// each.
pub proof fn law_replies(msg: Seq<char>, id: int, timed_out: Seq<char>, exited: Seq<char>)
    ensures
        reply_of(ReceivedModel::Message(msg), id, timed_out, exited) == (if top_level_id(msg, id) {
            Some(Ok::<Seq<char>, Seq<char>>(msg))
        } else {
            None
        }),
        reply_of(ReceivedModel::TimedOut, id, timed_out, exited) == Some(Err::<Seq<char>, Seq<char>>(timed_out)),
        reply_of(ReceivedModel::Disconnected, id, timed_out, exited) == Some(Err::<Seq<char>, Seq<char>>(exited)),
{
}

} // verus!
