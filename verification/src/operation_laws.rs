//! What the operations on texts, versions, archives and toolchains give, said of
//! what they are handed and what they return.

use vstd::prelude::*;

use crate::archive::{
    asset_glob, extract, extracted, find_archive, gh_args, listing_of, read_checksum, sha256_command, sha256_hex,
    single_subdir, subdir_of, verify_checksum, Check, CommandLine, DirEntry,
};
use crate::archive_laws::{law_archive_is_found, law_archive_is_missing, law_download_args, named_like};
use crate::bytes::{lossy_text, utf8_text};
use crate::copying::{all_copied, entry_trees, plan_copy, ProjectEntry};
use crate::document::{distinct_keys, parse_document, toml_document, Node, Tree};
use crate::download::{
    download_and_extract, download_awaits, download_begins, download_dir, download_next, Download, DownloadEvent,
    DownloadNext, Places,
};
use crate::output::{succeeded, Exit, ProcessOutput};
use crate::paths::{absolute, below, is_absolute, join_below, resolve, resolved};
use crate::staging::{is_left_out, stage_project, staging_failed, StagedProject, Stagings};
use crate::text::{
    ascii_lower, cat2, cat3, cat4, cat5, contains, decimal, decimal_text, ends_with, first_word, is_white,
    join, joined, less, lower, same, same_but_case, same_ignoring_case, signed_decimal, signed_text, split_words,
    text_less, text_of, texts, trim, trimmed, white, word, words,
};
use crate::text_laws::{law_has_suffix, law_occurs};
use crate::toolchain::{
    bin_name, install, install_next, platform, query_version, shared, version_verdict, InstallError, InstallEvent,
    InstallNext, Toolchain,
};
use crate::version::{cache_key_of, requested_exact_version, spec_of, SpecModel, VersionSpec};

verus! {

// ── Texts ───────────────────────────────────────────────────────────────────

/// How texts are told apart: by what they hold, what they hold somewhere, how
/// they end, what they hold but for the case of letters, and their order.
pub proof fn law_texts_are_compared(a: &str, b: &str, r: bool)
    ensures
        call_ensures(same, (a, b), r) ==> r == (a@ == b@),
        call_ensures(contains, (a, b), r) ==> (r <==> exists|x: Seq<char>, y: Seq<char>| a@ == #[trigger] (x + b@ + y)),
        call_ensures(ends_with, (a, b), r) ==> (r <==> exists|x: Seq<char>| a@ == #[trigger] (x + b@)),
        call_ensures(same_ignoring_case, (a, b), r) ==> r == same_but_case(a@, b@),
        call_ensures(less, (a, b), r) ==> r == text_less(a@, b@),
{
    law_occurs(a@, b@);
    law_has_suffix(a@, b@);
}

/// How texts are put together, trimmed, and made of numbers.
pub proof fn law_texts_are_made(a: &str, b: &str, c: &str, d: &str, e: &str, n: u64, k: i64, r: String)
    ensures
        call_ensures(cat2, (a, b), r) ==> r@ == a@ + b@,
        call_ensures(cat3, (a, b, c), r) ==> r@ == a@ + b@ + c@,
        call_ensures(cat4, (a, b, c, d), r) ==> r@ == a@ + b@ + c@ + d@,
        call_ensures(cat5, (a, b, c, d, e), r) ==> r@ == a@ + b@ + c@ + d@ + e@,
        call_ensures(trim, (a,), r) ==> r@ == trimmed(a@),
        call_ensures(decimal_text, (n,), r) ==> r@ == decimal(n as nat),
        call_ensures(signed_text, (k,), r) ==> r@ == signed_decimal(k as int),
{
}

/// How a text falls into words, and how texts are joined.
pub proof fn law_words_are_taken(s: &str, parts: &Vec<String>, all: Vec<String>, first: Option<String>, r: String)
    ensures
        call_ensures(words, (s,), all) ==> texts(all@) == split_words(s@),
        call_ensures(word, (s,), first) ==> text_of(first) == first_word(s@),
        call_ensures(join, (parts, s), r) ==> r@ == joined(texts(parts@), s@),
{
}

/// Which characters are whitespace, and what the case of a letter is.
pub proof fn law_characters(c: char, r: char, b: bool)
    ensures
        call_ensures(is_white, (c,), b) ==> b == white(c),
        call_ensures(lower, (c,), r) ==> r == ascii_lower(c),
{
}

/// Bytes are read as text if and only if they are UTF-8.
pub proof fn law_bytes_are_read(bytes: &[u8], r: Option<String>)
    requires
        call_ensures(utf8_text, (bytes,), r),
    ensures
        r is Some <==> vstd::utf8::valid_utf8(bytes@),
        r matches Some(s) ==> s@ == vstd::utf8::decode_utf8(bytes@),
{
}

/// A document is parsed to what it holds, in which no table has a key twice.
pub proof fn law_document_is_parsed(text: &str, r: Result<Node, String>)
    requires
        call_ensures(parse_document, (text,), r),
    ensures
        r matches Ok(n) ==> toml_document(text@) == Ok::<Tree, Seq<char>>(n@) && distinct_keys(n@),
        r matches Err(e) ==> toml_document(text@) == Err::<Tree, Seq<char>>(e@),
{
}

// ── Paths ───────────────────────────────────────────────────────────────────

/// What paths name.
pub proof fn law_paths(dir: &str, path: &str, windows: bool, r: String, b: bool)
    ensures
        call_ensures(is_absolute, (path, windows), b) ==> b == absolute(path@, windows),
        call_ensures(join_below, (dir, path, windows), r) ==> r@ == below(dir@, path@, windows),
        call_ensures(resolve, (dir, path, windows), r) ==> r@ == resolved(dir@, path@, windows),
{
}

// ── Versions ────────────────────────────────────────────────────────────────

/// Which release a text means: nothing and `latest`, `nightly` and `edge` are
/// those releases, and anything else is a version.
pub proof fn law_version_is_parsed(s: &str, value: Option<&str>, r: VersionSpec)
    ensures
        call_ensures(VersionSpec::parse, (s,), r) ==> {
            &&& r is Latest <==> trimmed(s@) == ""@ || trimmed(s@) == "latest"@
            &&& r is Nightly <==> trimmed(s@) == "nightly"@
            &&& r is Edge <==> trimmed(s@) == "edge"@
            &&& r@ == spec_of(s@)
        },
        call_ensures(VersionSpec::from_env, (value,), r) ==> {
            &&& value is None ==> r is Latest
            &&& (value matches Some(v) ==> r@ == spec_of(v@))
        },
{
    reveal_strlit("");
    reveal_strlit("latest");
    reveal_strlit("nightly");
    reveal_strlit("edge");
    assert(""@.len() == 0 && "latest"@.len() == 6 && "nightly"@.len() == 7 && "edge"@.len() == 4);
}

/// The tag of a release, and its name in the cache.
pub proof fn law_version_is_named(spec: &VersionSpec, tag: Option<String>, key: String)
    ensures
        call_ensures(VersionSpec::tag, (spec,), tag) ==> match *spec {
            VersionSpec::Latest => tag is None,
            VersionSpec::Nightly => tag matches Some(t) && t@ == "nightly"@,
            VersionSpec::Edge => tag matches Some(t) && t@ == "edge"@,
            VersionSpec::Exact(v) => tag matches Some(t) && t@ == "v"@ + v@,
        },
        call_ensures(VersionSpec::cache_key, (spec,), key) ==> key@ == match *spec {
            VersionSpec::Latest => "latest"@,
            VersionSpec::Nightly => "nightly"@,
            VersionSpec::Edge => "edge"@,
            VersionSpec::Exact(v) => "v"@ + v@,
        },
{
}

/// An exact version is asked for if and only if the variable is set to one.
pub proof fn law_requested_version(value: Option<&str>, r: Option<String>)
    requires
        call_ensures(requested_exact_version, (value,), r),
    ensures
        value is None ==> r is None,
        value matches Some(v) ==> match spec_of(v@) {
            SpecModel::Exact(x) => r matches Some(s) && s@ == x,
            _ => r is None,
        },
{
}

// ── Archives ────────────────────────────────────────────────────────────────

/// What `gh` is asked for: the asset of the platform, of any version, and its
/// checksum file, of the release that is meant.
pub proof fn law_gh_is_asked(spec: &VersionSpec, plat: &str, ext: &str, glob: &str, dir: &str, r: String, v: Vec<String>)
    ensures
        call_ensures(asset_glob, (plat, ext), r) ==> r@ == "beamtalk-*-"@ + plat@ + "."@ + ext@,
        call_ensures(gh_args, (spec, glob, dir), v) ==> texts(v@) == (match *spec {
            VersionSpec::Latest => seq!["release"@, "download"@],
            VersionSpec::Nightly => seq!["release"@, "download"@, "nightly"@],
            VersionSpec::Edge => seq!["release"@, "download"@, "edge"@],
            VersionSpec::Exact(x) => seq!["release"@, "download"@, "v"@ + x@],
        }) + seq![
            "--repo"@,
            "jamesc/beamtalk"@,
            "--pattern"@,
            glob@,
            "--pattern"@,
            glob@ + ".sha256"@,
            "--dir"@,
            dir@,
            "--clobber"@,
        ],
{
    if let VersionSpec::Exact(x) = *spec {
        law_download_args(glob@, dir@, x@);
    } else {
        law_download_args(glob@, dir@, Seq::empty());
    }
}

/// Whether an entry is named like an archive: its name ends with a dot and the
/// extension, and not with `.sha256`.
pub open spec fn archive_name(e: Result<DirEntry, String>, ext: Seq<char>) -> bool {
    e matches Ok(d) && (d.name matches Some(n) && {
        &&& exists|x: Seq<char>| n@ == #[trigger] (x + ("."@ + ext))
        &&& !exists|x: Seq<char>| n@ == #[trigger] (x + ".sha256"@)
    })
}

/// An entry is named like an archive in the listing if and only if it is so.
proof fn lemma_archive_name(v: Vec<Result<DirEntry, String>>, ext: Seq<char>, i: int)
    requires
        0 <= i < v@.len(),
    ensures
        named_like(listing_of(Ok(v))->Ok_0[i], ext) <==> archive_name(v@[i], ext),
        listing_of(Ok(v))->Ok_0[i] is Ok <==> v@[i] is Ok,
{
    if let Ok(d) = v@[i] {
        if let Some(n) = d.name {
            law_has_suffix(n@, "."@ + ext);
            law_has_suffix(n@, ".sha256"@);
        }
    }
}

/// The archive is the first entry of the listing that is named like one, with
/// whatever extension is asked for, if all in front of it could be read; and
/// where there is none, it is said why.
pub proof fn law_archive_search(dir: &str, ext: &str, v: Vec<Result<DirEntry, String>>, k: int, r: Result<String, String>)
    requires
        call_ensures(find_archive, (dir, ext, Ok(v)), r),
        0 <= k <= v@.len(),
        forall|j: int| 0 <= j < k ==> (#[trigger] v@[j]) is Ok && !archive_name(v@[j], ext@),
    ensures
        k < v@.len() && archive_name(v@[k], ext@) ==> (r matches Ok(p) && p@ == v@[k]->Ok_0.path@),
        k < v@.len() && v@[k] is Err ==> (r matches Err(e) && e@ == v@[k]->Err_0@),
        k == v@.len() ==> (r matches Err(e) && e@ == "no `*."@ + ext@ + "` asset downloaded into "@ + dir@
            + " (release may lack this platform)"@),
{
    let entries = listing_of(Ok(v))->Ok_0;
    assert forall|j: int| 0 <= j < k implies (#[trigger] entries[j]) is Ok && !named_like(entries[j], ext@) by {
        assert(v@[j] is Ok && !archive_name(v@[j], ext@));
        lemma_archive_name(v, ext@, j);
    }
    law_archive_is_missing(dir@, ext@, entries, k, Seq::empty());
    if k < v@.len() && archive_name(v@[k], ext@) {
        lemma_archive_name(v, ext@, k);
        let d = v@[k]->Ok_0;
        law_archive_is_found(dir@, ext@, entries, k, d.path@, d.name->0@);
    }
}

/// A directory that cannot be listed is said to be so.
pub proof fn law_unreadable_directory(dir: &str, ext: &str, error: String, r: Result<String, String>)
    ensures
        call_ensures(find_archive, (dir, ext, Err(error)), r) ==> (r matches Err(e) && e@ == "read_dir "@ + dir@ + ": "@
            + error@),
        call_ensures(single_subdir, (dir, Err(error)), r) ==> (r matches Err(e) && e@ == "read_dir "@ + dir@ + ": "@
            + error@),
{
}

/// What is promoted is the subdirectory that the listing shows.
pub proof fn law_subdirectory(dir: &str, v: Vec<Result<DirEntry, String>>, r: Result<String, String>)
    requires
        call_ensures(single_subdir, (dir, Ok(v)), r),
    ensures
        r matches Ok(p) ==> subdir_of(dir@, listing_of(Ok(v))) == Ok::<Seq<char>, Seq<char>>(p@),
        r matches Err(e) ==> subdir_of(dir@, listing_of(Ok(v))) == Err::<Seq<char>, Seq<char>>(e@),
{
}

/// The expected hash is the first word of the checksum file. Without the file
/// there is a warning, and without a word in it there is none.
pub proof fn law_checksum_file(archive: &str, contents: Option<String>, r: Result<String, Check>)
    requires
        call_ensures(read_checksum, (archive, contents), r),
    ensures
        contents is None ==> (r matches Err(Check::Unverified(Some(w))) && w@ == "warning: no checksum file for "@ + archive@
            + ", skipping"@),
        contents matches Some(c) ==> match first_word(c@) {
            Some(x) => r matches Ok(h) && h@ == x,
            None => r matches Err(Check::Unverified(None)),
        },
{
}

/// An archive is intact if and only if its hash is the expected one, but for the
/// case of letters. Without a hash there is a warning.
pub proof fn law_checksum_is_compared(archive: &str, expected: &str, actual: Option<String>, r: Check)
    requires
        call_ensures(verify_checksum, (archive, expected, actual), r),
    ensures
        r is Intact <==> (actual matches Some(h) && same_but_case(h@, expected@)),
        actual is None ==> (r matches Check::Unverified(Some(w)) && w@
            == "warning: no sha256sum/shasum available, skipping verification"@),
        actual is Some && !same_but_case(actual->0@, expected@) ==> (r matches Check::Mismatch(m) && m@
            == "checksum mismatch for "@ + archive@ + ":\n  expected: "@ + expected@ + ("\n  actual:   "@ + actual->0@)),
{
}

/// An archive is hashed by `sha256sum`, and by `shasum` behind it; and the hash is
/// the first word of what the tool wrote, if it exited with 0.
pub proof fn law_archive_is_hashed(
    archive: &str,
    second: bool,
    c: CommandLine,
    out: ProcessOutput,
    r: Option<String>,
)
    ensures
        call_ensures(sha256_command, (archive, second), c) ==> if second {
            c.program@ == "shasum"@ && texts(c.args@) == seq!["-a"@, "256"@, archive@]
        } else {
            c.program@ == "sha256sum"@ && texts(c.args@) == seq![archive@]
        },
        call_ensures(sha256_hex, (Some(out),), r) ==> text_of(r) == if out.code == Some(0i32) {
            first_word(lossy_text(out.stdout@))
        } else {
            None
        },
        call_ensures(sha256_hex, (None,), r) ==> r is None,
{
}

/// A `tar.gz` is unpacked by `tar`, a `zip` by `unzip`, and nothing else is.
pub proof fn law_archive_is_unpacked(archive: &str, dest: &str, ext: &str, r: Result<CommandLine, String>)
    requires
        call_ensures(extract, (archive, dest, ext), r),
    ensures
        ext@ == "tar.gz"@ ==> (r matches Ok(c) && c.program@ == "tar"@ && texts(c.args@) == seq![
            "-xzf"@,
            archive@,
            "-C"@,
            dest@,
        ]),
        ext@ == "zip"@ ==> (r matches Ok(c) && c.program@ == "unzip"@ && texts(c.args@) == seq![
            "-qo"@,
            archive@,
            "-d"@,
            dest@,
        ]),
        r is Ok <==> ext@ == "tar.gz"@ || ext@ == "zip"@,
{
    reveal_strlit("tar.gz");
    reveal_strlit("zip");
    assert("tar.gz"@.len() == 6 && "zip"@.len() == 3);
}

/// An archive was unpacked if and only if the program exited with 0.
pub proof fn law_archive_was_unpacked(archive: &str, exit: Result<Exit, String>, r: Result<(), String>)
    requires
        call_ensures(extracted, (archive, exit), r),
    ensures
        r is Ok <==> (exit matches Ok(x) && x.code == Some(0i32)),
        exit matches Err(e) ==> (r matches Err(m) && m@ == "failed to extract "@ + archive@ + ": "@ + e@),
        exit is Ok && exit->Ok_0.code != Some(0i32) ==> (r matches Err(m) && m@ == "extraction of "@ + archive@
            + " failed ("@ + exit->Ok_0.status@ + ")"@),
{
}

// ── Toolchains ──────────────────────────────────────────────────────────────

/// A release is downloaded into a directory that is named after it and the
/// process.
pub proof fn law_download_dir(spec: &VersionSpec, pid: u32, r: String)
    requires
        call_ensures(download_dir, (spec, pid), r),
    ensures
        r@ == "dl-"@ + cache_key_of(spec@) + "-"@ + decimal(pid as nat),
{
}

/// A download goes as it began: from one event to the next.
pub proof fn law_download_goes(
    spec: &VersionSpec,
    os: &str,
    arch: &str,
    places: Places,
    begun: (Download, DownloadNext),
    d: &mut Download,
    event: DownloadEvent,
    next: DownloadNext,
)
    ensures
        call_ensures(download_and_extract, (spec, os, arch, places), begun) ==> {
            let step = download_begins(spec@, os@, arch@, places@);
            begun.0@ == step.state && text_of(begun.1.warning) == step.warning && begun.1.action@ == step.action
        },
        download_awaits(old(d)@.stage, event@) && call_ensures(Download::next, (d, event), next) ==> {
            let step = download_next(old(d)@, event@);
            final(d)@ == step.state && text_of(next.warning) == step.warning && next.action@ == step.action
        },
{
}

/// The platforms that there are releases for, and what the executable is called.
pub proof fn law_platform(os: &str, arch: &str, r: Result<(&'static str, &'static str), String>, windows: bool, bin: &'static str)
    ensures
        call_ensures(platform, (os, arch), r) ==> {
            &&& os@ == "linux"@ && arch@ == "x86_64"@ ==> (r matches Ok(p) && p.0@ == "linux-x86_64"@ && p.1@ == "tar.gz"@)
            &&& os@ == "macos"@ && arch@ == "x86_64"@ ==> (r matches Ok(p) && p.0@ == "macos-x86_64"@ && p.1@ == "tar.gz"@)
            &&& os@ == "macos"@ && arch@ == "aarch64"@ ==> (r matches Ok(p) && p.0@ == "macos-arm64"@ && p.1@ == "tar.gz"@)
            &&& os@ == "windows"@ && arch@ == "x86_64"@ ==> (r matches Ok(p) && p.0@ == "windows-x86_64"@ && p.1@ == "zip"@)
            &&& r is Ok ==> {
                ||| (os@ == "linux"@ || os@ == "macos"@ || os@ == "windows"@) && arch@ == "x86_64"@
                ||| os@ == "macos"@ && arch@ == "aarch64"@
            }
            &&& (r matches Err(e) ==> e@ == "unsupported platform: "@ + os@ + "-"@ + arch@)
        },
        call_ensures(bin_name, (windows,), bin) ==> bin@ == (if windows {
            "beamtalk.exe"@
        } else {
            "beamtalk"@
        }),
{
    reveal_strlit("linux");
    reveal_strlit("macos");
    reveal_strlit("windows");
    reveal_strlit("x86_64");
    reveal_strlit("aarch64");
    assert("linux"@.len() == 5 && "macos"@.len() == 5 && "windows"@.len() == 7);
    assert("linux"@[0] == 'l' && "macos"@[0] == 'm');
    assert("x86_64"@.len() == 6 && "aarch64"@.len() == 7);
}

/// A binary has the version that it wrote, trimmed, if it exited with 0.
pub proof fn law_version_is_queried(
    bin: &str,
    code: Option<i32>,
    status: &str,
    stdout: &str,
    output: Result<ProcessOutput, String>,
    r: Result<String, String>,
    b: bool,
)
    ensures
        call_ensures(succeeded, (code,), b) ==> (b <==> code is Some && code->0 == 0),
        call_ensures(version_verdict, (bin, code, status, stdout), r) ==> {
            &&& r is Ok <==> code == Some(0i32)
            &&& (r matches Ok(v) ==> v@ == trimmed(stdout@))
            &&& (r matches Err(e) ==> e@ == "`"@ + bin@ + " --version` exited with "@ + status@)
        },
        call_ensures(query_version, (bin, output), r) ==> match output {
            Ok(out) => if out.code == Some(0i32) {
                r matches Ok(v) && v@ == trimmed(lossy_text(out.stdout@))
            } else {
                r matches Err(e) && e@ == "`"@ + bin@ + " --version` exited with "@ + out.status@
            },
            Err(e) => r matches Err(m) && m@ == "failed to run `"@ + bin@ + " --version`: "@ + e@,
        },
{
}

/// An installation goes from one event to the next.
pub proof fn law_install_goes(spec: &VersionSpec, event: InstallEvent, r: InstallNext)
    requires
        call_ensures(install, (spec, event), r),
    ensures
        r@ == install_next(spec@, event@),
{
}

/// A run has the toolchain that was installed. Without one it is skipped if a
/// rolling pre-release was refused, and fails otherwise.
pub proof fn law_toolchain_is_shared(
    spec: &VersionSpec,
    result: Result<Toolchain, InstallError>,
    r: Result<Option<Toolchain>, String>,
)
    requires
        call_ensures(shared, (spec, result), r),
    ensures
        match result {
            Ok(tc) => r matches Ok(Some(t)) && t.bin@ == tc.bin@ && t.version@ == tc.version@,
            Err(InstallError::Refused(m)) => if spec is Nightly || spec is Edge {
                r matches Ok(None)
            } else {
                r matches Err(e) && e@ == "failed to install Beamtalk toolchain: "@ + m@
            },
            Err(InstallError::Failed(m)) => r matches Err(e) && e@ == "failed to install Beamtalk toolchain: "@ + m@,
        },
{
}

// ── Staging ─────────────────────────────────────────────────────────────────

/// A project is staged below the directory for temporary files, under its name,
/// the process and the number of the staging, if it is there.
pub proof fn law_project_is_staged(
    stagings: &mut Stagings,
    name: &str,
    src: &str,
    is_dir: bool,
    temp: &str,
    windows: bool,
    r: Result<StagedProject, String>,
)
    requires
        old(stagings).wf(),
        old(stagings).count() < u64::MAX,
        call_ensures(stage_project, (stagings, name, src, is_dir, temp, windows), r),
    ensures
        r is Ok <==> is_dir,
        final(stagings).pid() == old(stagings).pid(),
        final(stagings).count() == old(stagings).count() + if is_dir { 1int } else { 0 },
        r matches Ok(s) ==> s.dir() == below(
            temp@,
            "beamtalk-uat-"@ + name@ + "-"@ + decimal(old(stagings).pid()) + ("-"@ + decimal(old(stagings).count())),
            windows,
        ),
        r matches Err(e) ==> e@ == "project not found: "@ + src@,
{
}

/// What is copied of a project is what its entries come to.
pub proof fn law_copy_is_planned(entries: &Vec<ProjectEntry>, r: Result<Vec<usize>, String>)
    requires
        call_ensures(plan_copy, (entries,), r),
    ensures
        r matches Ok(v) ==> all_copied(entry_trees(entries@)) == Ok::<Seq<usize>, Seq<char>>(v@),
        r matches Err(e) ==> all_copied(entry_trees(entries@)) == Err::<Seq<usize>, Seq<char>>(e@),
{
}

/// What is left out of a staged project, and what is said of one that could not
/// be copied.
pub proof fn law_project_is_copied(name: Option<&str>, b: bool, project: &str, error: &str, r: String)
    ensures
        call_ensures(is_left_out, (name,), b) ==> (b <==> (name matches Some(n) && (n@ == "_build"@ || n@ == ".git"@))),
        call_ensures(staging_failed, (project, error), r) ==> r@ == "staging project "@ + project@ + ": "@ + error@,
{
}

} // verus!
