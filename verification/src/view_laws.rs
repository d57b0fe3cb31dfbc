//! What the models of values show: what the values hold, unchanged.

use vstd::prelude::*;

use crate::archive::{entry_of, listing_of, Check, CheckModel, CommandLine, DirEntry, EntryModel};
use crate::copying::{EntryKind, KindTree, ProjectEntry};
use crate::document::{Entry, Node, Tree};
use crate::download::{
    DownloadAction, DownloadActionModel, DownloadError, DownloadErrorModel, DownloadEvent, DownloadEventModel, Places,
};
use crate::output::{ended, spawned, Exit, ProcessOutput};
use crate::rpc::{reply_model, Handshake, Received, ReceivedModel, Sent};
use crate::scenario::decode::RawScenario;
use crate::scenario::lsp_run::{LspAction, LspActionModel, LspEvent, LspEventModel};
use crate::scenario::mcp_run::{McpAction, McpActionModel, McpEvent, McpEventModel};
use crate::scenario::process::{Next, NextModel, Progress, ProgressModel};
use crate::scenario::session::answer_text;
use crate::text::{text_of, texts, verdict};
use crate::toolchain::{
    Candidate, InstallError, InstallErrorModel, InstallEvent, InstallEventModel, InstallNext, InstallNextModel,
    Toolchain, ToolchainModel,
};
use crate::version::{slice_text, SpecModel, VersionSpec};

verus! {

/// Texts are shown one by one, in order; an error is shown by its text.
pub proof fn law_texts(v: Seq<String>, s: String, t: &str)
    ensures
        texts(v).len() == v.len(),
        forall|i: int| 0 <= i < v.len() ==> #[trigger] texts(v)[i] == v[i]@,
        text_of(Some(s)) == Some(s@),
        text_of(None) is None,
        slice_text(Some(t)) == Some(t@),
        slice_text(None) is None,
        verdict(Ok(())) is None,
        verdict(Err(s)) == Some(s@),
        answer_text(Ok(s)) == Ok::<Seq<char>, Seq<char>>(s@),
        answer_text(Err(s)) == Err::<Seq<char>, Seq<char>>(s@),
        reply_model(Some(Ok(s))) == Some(Ok::<Seq<char>, Seq<char>>(s@)),
        reply_model(Some(Err(s))) == Some(Err::<Seq<char>, Seq<char>>(s@)),
        reply_model(None) is None,
{
}

/// A version is shown as what it is.
pub proof fn law_version_view(v: String)
    ensures
        VersionSpec::Latest@ == SpecModel::Latest,
        VersionSpec::Nightly@ == SpecModel::Nightly,
        VersionSpec::Edge@ == SpecModel::Edge,
        VersionSpec::Exact(v)@ == SpecModel::Exact(v@),
{
}

/// A listing shows its entries one by one, in order, each with its path, its
/// name and whether it is a directory.
pub proof fn law_listing_view(v: Vec<Result<DirEntry, String>>, e: DirEntry, s: String)
    ensures
        e@.path == e.path@,
        e@.name == text_of(e.name),
        e@.is_dir == e.is_dir,
        entry_of(Ok(e)) == Ok::<EntryModel, Seq<char>>(e@),
        entry_of(Err(s)) == Err::<EntryModel, Seq<char>>(s@),
        listing_of(Ok(v)) is Ok,
        listing_of(Ok(v))->Ok_0.len() == v@.len(),
        forall|i: int| 0 <= i < v@.len() ==> #[trigger] listing_of(Ok(v))->Ok_0[i] == entry_of(v@[i]),
        listing_of(Err(s)) == Err::<Seq<Result<EntryModel, Seq<char>>>, Seq<char>>(s@),
{
}

/// The verdict on a checksum, and a command line, are shown as they are.
pub proof fn law_command_view(c: CommandLine, m: String, w: Option<String>)
    ensures
        c@.program == c.program@,
        c@.args == texts(c.args@),
        Check::Intact@ == CheckModel::Intact,
        Check::Mismatch(m)@ == CheckModel::Mismatch(m@),
        Check::Unverified(w)@ == CheckModel::Unverified(text_of(w)),
{
}

/// What happened in a download is shown as what it was.
pub proof fn law_download_event_view(
    p: Places,
    made: Result<(), String>,
    ran: Result<Exit, String>,
    listing: Result<Vec<Result<DirEntry, String>>, String>,
    text: Option<String>,
    out: ProcessOutput,
)
    ensures
        p@.tmp == p.tmp@,
        p@.staging == p.staging@,
        p@.prefix == p.prefix@,
        p@.parent == text_of(p.parent),
        DownloadEvent::Made(made)@ == DownloadEventModel::Made(verdict(made)),
        DownloadEvent::Ran(ran)@ == DownloadEventModel::Ran(ended(ran)),
        DownloadEvent::Listed(listing)@ == DownloadEventModel::Listed(listing_of(listing)),
        DownloadEvent::Checksum(text)@ == DownloadEventModel::Checksum(text_of(text)),
        DownloadEvent::Hashed(Some(out))@ == DownloadEventModel::Hashed(Some(out@)),
        DownloadEvent::Hashed(None)@ == DownloadEventModel::Hashed(None),
        DownloadEvent::Removed@ == DownloadEventModel::Removed,
{
}

/// What a download does next is shown as what it is.
pub proof fn law_download_action_view(dir: String, other: String, fresh: bool, c: CommandLine, e: DownloadError)
    ensures
        (DownloadAction::MakeDir { dir, fresh })@ == (DownloadActionModel::MakeDir { dir: dir@, fresh }),
        DownloadAction::Run(c)@ == DownloadActionModel::Run(c@),
        (DownloadAction::List { dir })@ == (DownloadActionModel::List { dir: dir@ }),
        (DownloadAction::ReadChecksum { file: dir })@ == (DownloadActionModel::ReadChecksum { file: dir@ }),
        DownloadAction::Hash(c)@ == DownloadActionModel::Hash(c@),
        (DownloadAction::Install { from: dir, to: other })@ == (DownloadActionModel::Install { from: dir@, to: other@ }),
        (DownloadAction::Remove { dir })@ == (DownloadActionModel::Remove { dir: dir@ }),
        DownloadAction::Done(Ok(()))@ == DownloadActionModel::Done(None),
        DownloadAction::Done(Err(e))@ == DownloadActionModel::Done(Some(e@)),
        DownloadError::Refused(dir)@ == DownloadErrorModel::Refused(dir@),
        DownloadError::Corrupt(dir)@ == DownloadErrorModel::Corrupt(dir@),
        DownloadError::Failed(dir)@ == DownloadErrorModel::Failed(dir@),
{
}

/// What happens in an installation, and what comes next, are shown as what they
/// are.
pub proof fn law_install_view(
    tc: Toolchain,
    e: InstallError,
    c: Candidate,
    given: Candidate,
    s: String,
    out: Result<ProcessOutput, String>,
)
    ensures
        tc@.bin == tc.bin@,
        tc@.version == tc.version@,
        InstallError::Refused(s)@ == InstallErrorModel::Refused(s@),
        InstallError::Failed(s)@ == InstallErrorModel::Failed(s@),
        c@.bin == c.bin@,
        c@.dir == c.dir@,
        c@.windows == c.windows,
        c@.exists == c.exists,
        (InstallEvent::Begin { given: Some(given), cached: c })@ == (InstallEventModel::Begin {
            given: Some(given@),
            cached: c@,
        }),
        (InstallEvent::Begin { given: None, cached: c })@ == (InstallEventModel::Begin { given: None, cached: c@ }),
        (InstallEvent::Downloaded { result: Ok(()), cached: c })@ == (InstallEventModel::Downloaded {
            result: None,
            cached: c@,
        }),
        (InstallEvent::Downloaded { result: Err(e), cached: c })@ == (InstallEventModel::Downloaded {
            result: Some(e@),
            cached: c@,
        }),
        (InstallEvent::Queried { bin: s, output: out })@ == (InstallEventModel::Queried { bin: s@, output: spawned(out) }),
        InstallNext::Download@ == InstallNextModel::Download,
        (InstallNext::Query { bin: s })@ == (InstallNextModel::Query { bin: s@ }),
        InstallNext::Done(Ok(tc))@ == InstallNextModel::Done(Ok::<ToolchainModel, InstallErrorModel>(tc@)),
        InstallNext::Done(Err(e))@ == InstallNextModel::Done(Err::<ToolchainModel, InstallErrorModel>(e@)),
{
}

/// What is sent to a server, and what comes from it, are shown as what they are.
pub proof fn law_sent_view(sent: Sent, h: Handshake, m: String)
    ensures
        sent@.id == sent.id,
        sent@.method == sent.method@,
        sent@.text == sent.text@,
        h@.request == h.request@,
        h@.acknowledge == h.acknowledge@,
        Received::Message(m)@ == ReceivedModel::Message(m@),
        Received::TimedOut@ == ReceivedModel::TimedOut,
        Received::Disconnected@ == ReceivedModel::Disconnected,
{
}

/// What happens in an LSP session, and what comes next, are shown as what they
/// are.
pub proof fn law_lsp_view(
    r: Result<(), String>,
    path: String,
    text: Result<String, String>,
    h: Handshake,
    open: Option<String>,
    request: Sent,
)
    ensures
        LspEvent::Started(r)@ == LspEventModel::Started(verdict(r)),
        LspEvent::Greeted(r)@ == LspEventModel::Greeted(verdict(r)),
        (LspEvent::Source { path, text })@ == (LspEventModel::Source { path: path@, text: answer_text(text) }),
        LspEvent::Answered(text)@ == LspEventModel::Answered(answer_text(text)),
        LspAction::Start@ == LspActionModel::Start,
        LspAction::Greet(h)@ == LspActionModel::Greet(h@),
        (LspAction::Read { source: path })@ == (LspActionModel::Read { source: path@ }),
        (LspAction::Ask { open, request })@ == (LspActionModel::Ask { open: text_of(open), request: request@ }),
        LspAction::Finish(r)@ == LspActionModel::Finish(verdict(r)),
{
}

/// What happens in an MCP session, and what comes next, are shown as what they
/// are.
pub proof fn law_mcp_view(r: Result<(), String>, text: Result<String, String>, h: Handshake, call: Sent, stop: bool)
    ensures
        McpEvent::Started(r)@ == McpEventModel::Started(verdict(r)),
        McpEvent::Greeted(r)@ == McpEventModel::Greeted(verdict(r)),
        McpEvent::Answered(text)@ == McpEventModel::Answered(answer_text(text)),
        McpAction::Start@ == McpActionModel::Start,
        McpAction::Greet(h)@ == McpActionModel::Greet(h@),
        McpAction::Call(call)@ == McpActionModel::Call(call@),
        (McpAction::Finish { result: r, stop })@ == (McpActionModel::Finish { error: verdict(r), stop }),
{
}

/// How far a scenario that is run by commands is, and what comes next, are shown
/// as what they are.
pub proof fn law_process_view(
    out: Result<ProcessOutput, String>,
    args: Vec<String>,
    cwd: Option<String>,
    r: Result<(), String>,
)
    ensures
        Progress::Begin@ == ProgressModel::Begin,
        Progress::Prepared(out)@ == ProgressModel::Prepared(spawned(out)),
        Progress::Executed(out)@ == ProgressModel::Executed(spawned(out)),
        (Next::Prepare { args })@ == (NextModel::Prepare { args: texts(args@) }),
        (Next::Execute { args, cwd })@ == (NextModel::Execute { args: texts(args@), cwd: text_of(cwd) }),
        Next::Done(r)@ == NextModel::Done(verdict(r)),
{
}

/// A value of a document is shown as what it is, and what is in it one by one,
/// in order.
pub proof fn law_document_view(s: String, n: i64, b: bool, a: Vec<Node>, t: Vec<Entry>)
    ensures
        Node::Str(s)@ == Tree::Str(s@),
        Node::Int(n)@ == Tree::Int(n),
        Node::Float(s)@ == Tree::Float(s@),
        Node::Bool(b)@ == Tree::Bool(b),
        Node::Datetime(s)@ == Tree::Datetime(s@),
        Node::Array(a)@ == Tree::Array(a@.map_values(|x: Node| x@)),
        Node::Table(t)@ == Tree::Table(t@.map_values(|e: Entry| (e.key@, e.value@))),
{
    assert(Node::Array(a)@->Array_0 =~= a@.map_values(|x: Node| x@));
    assert(Node::Table(t)@->Table_0 =~= t@.map_values(|e: Entry| (e.key@, e.value@)));
}

/// An entry of a project is shown with its name and its number, and what is in a
/// directory one by one, in order.
pub proof fn law_entry_view(e: ProjectEntry)
    ensures
        e@.name == text_of(e.name),
        e@.id == e.id,
        e@.kind is File <==> e.kind is File,
        (e.kind matches EntryKind::Broken(m) ==> e@.kind == KindTree::Broken(m@)),
        (e.kind matches EntryKind::Dir(v) ==> e@.kind == KindTree::Dir(v@.map_values(|x: ProjectEntry| x@))),
{
    if let EntryKind::Dir(v) = e.kind {
        assert(e@.kind->Dir_0 =~= v@.map_values(|x: ProjectEntry| x@));
    }
}

/// A scenario as it was read is shown with its name, its surface, its inline
/// fields and its steps in order.
pub proof fn law_raw_view(raw: RawScenario)
    ensures
        raw@.name == text_of(raw.name),
        raw@.surface == raw.surface,
        raw@.action == raw.action@,
        raw@.step.len() == raw.step@.len(),
        forall|i: int| 0 <= i < raw.step@.len() ==> #[trigger] raw@.step[i] == raw.step@[i]@,
{
}

} // verus!
