//! Release archives: what is asked for, what was downloaded, whether it is
//! intact, and how it is unpacked.

use vstd::prelude::*;

use crate::bytes::lossy;
use crate::output::{ended, succeeded, success, Exit, ExitModel, OutputModel, ProcessOutput};
use crate::text::{
    cat2, cat3, cat4, cat5, decimal, decimal_text, ends_with, first_word, has_suffix, same, same_but_case,
    same_ignoring_case, text_of, texts, verdict, word,
};
use crate::version::{tag_of, SpecModel, VersionSpec};

verus! {

/// An entry of a directory.
#[derive(Debug)]
pub struct DirEntry {
    /// The path of the entry.
    pub path: String,
    /// The name of the entry, where it is UTF-8.
    pub name: Option<String>,
    /// Whether the entry is a directory.
    pub is_dir: bool,
}

/// What is known of an entry of a directory.
#[verifier::ext_equal]
pub struct EntryModel {
    pub path: Seq<char>,
    pub name: Option<Seq<char>>,
    pub is_dir: bool,
}

impl View for DirEntry {
    type V = EntryModel;

    open spec fn view(&self) -> EntryModel {
        EntryModel { path: self.path@, name: text_of(self.name), is_dir: self.is_dir }
    }
}

/// The listing of a directory, or the error of listing it; and of each entry
/// what is known of it, or the error of reading it.
pub type Listing = Result<Vec<Result<DirEntry, String>>, String>;

/// The listing of a directory.
pub type ListingModel = Result<Seq<Result<EntryModel, Seq<char>>>, Seq<char>>;

/// What an entry shows.
pub open spec fn entry_of(r: Result<DirEntry, String>) -> Result<EntryModel, Seq<char>> {
    match r {
        Ok(e) => Ok(e@),
        Err(e) => Err(e@),
    }
}

/// What a listing shows.
pub open spec fn listing_of(l: Listing) -> ListingModel {
    match l {
        Ok(v) => Ok(v@.map_values(|r: Result<DirEntry, String>| entry_of(r))),
        Err(e) => Err(e@),
    }
}

// ── Download ────────────────────────────────────────────────────────────────

/// The pattern of the release asset for a platform.
pub open spec fn asset_pattern(plat: Seq<char>, ext: Seq<char>) -> Seq<char> {
    "beamtalk-*-"@ + plat + "."@ + ext
}

/// The arguments of `gh` that download a release into `dir`.
pub open spec fn download_args(spec: SpecModel, pattern: Seq<char>, dir: Seq<char>) -> Seq<Seq<char>> {
    seq!["release"@, "download"@] + (match tag_of(spec) {
        Some(tag) => seq![tag],
        None => Seq::empty(),
    }) + seq![
        "--repo"@,
        "jamesc/beamtalk"@,
        "--pattern"@,
        pattern,
        "--pattern"@,
        pattern + ".sha256"@,
        "--dir"@,
        dir,
        "--clobber"@,
    ]
}

/// The pattern of the release asset for a platform.
pub fn asset_glob(plat: &str, ext: &str) -> (r: String)
    ensures
        r@ == asset_pattern(plat@, ext@),
{
    cat4("beamtalk-*-", plat, ".", ext)
}

/// Appends a text to a list.
fn add_text(v: &mut Vec<String>, s: &str)
    ensures
        texts(final(v)@) == texts(old(v)@).push(s@),
{
    let ghost before = texts(v@);
    v.push(s.to_owned());
    assert(texts(v@) =~= before.push(s@));
}

/// The arguments of `gh` that download a release into `dir`. `gh release
/// download` resolves the latest release when no tag is given, and globs assets
/// by platform, so that the version need not be known ahead.
pub fn gh_args(spec: &VersionSpec, glob: &str, dir: &str) -> (r: Vec<String>)
    ensures
        texts(r@) == download_args(spec@, glob@, dir@),
{
    let mut v: Vec<String> = Vec::new();
    assert(texts(v@) =~= Seq::<Seq<char>>::empty());
    add_text(&mut v, "release");
    add_text(&mut v, "download");
    let ghost head = texts(v@);
    assert(head =~= seq!["release"@, "download"@]);
    match spec.tag() {
        Some(tag) => {
            add_text(&mut v, tag.as_str());
            assert(texts(v@) =~= head + seq![tag@]);
        },
        None => {
            assert(texts(v@) =~= head + Seq::<Seq<char>>::empty());
        },
    }
    let ghost front = texts(v@);
    add_text(&mut v, "--repo");
    add_text(&mut v, "jamesc/beamtalk");
    add_text(&mut v, "--pattern");
    add_text(&mut v, glob);
    add_text(&mut v, "--pattern");
    let sums = cat2(glob, ".sha256");
    add_text(&mut v, sums.as_str());
    add_text(&mut v, "--dir");
    add_text(&mut v, dir);
    add_text(&mut v, "--clobber");
    assert(texts(v@) =~= front + seq![
        "--repo"@,
        "jamesc/beamtalk"@,
        "--pattern"@,
        glob@,
        "--pattern"@,
        glob@ + ".sha256"@,
        "--dir"@,
        dir@,
        "--clobber"@,
    ]);
    v
}

/// Whether an entry is the downloaded archive.
pub open spec fn is_archive(e: EntryModel, ext: Seq<char>) -> bool {
    let name = match e.name {
        Some(n) => n,
        None => ""@,
    };
    has_suffix(name, "."@ + ext) && !has_suffix(name, ".sha256"@)
}

/// The first archive among the entries from `i` on, or the first error before
/// it; none where there is neither.
pub open spec fn archive_among(
    entries: Seq<Result<EntryModel, Seq<char>>>,
    ext: Seq<char>,
    i: int,
) -> Option<Result<Seq<char>, Seq<char>>>
    decreases entries.len() - i,
{
    if i < 0 || i >= entries.len() {
        None
    } else {
        match entries[i] {
            Err(e) => Some(Err(e)),
            Ok(entry) => if is_archive(entry, ext) {
                Some(Ok(entry.path))
            } else {
                archive_among(entries, ext, i + 1)
            },
        }
    }
}

/// The archive that was downloaded into `dir`, or what is wrong.
pub open spec fn archive_of(dir: Seq<char>, ext: Seq<char>, listing: ListingModel) -> Result<Seq<char>, Seq<char>> {
    match listing {
        Err(e) => Err("read_dir "@ + dir + ": "@ + e),
        Ok(entries) => match archive_among(entries, ext, 0) {
            Some(r) => r,
            None => Err(
                "no `*."@ + ext + "` asset downloaded into "@ + dir + " (release may lack this platform)"@,
            ),
        },
    }
}

/// The archive that was downloaded into `dir`.
pub fn find_archive(dir: &str, ext: &str, listing: Listing) -> (r: Result<String, String>)
    ensures
        match archive_of(dir@, ext@, listing_of(listing)) {
            Ok(path) => r matches Ok(s) && s@ == path,
            Err(m) => r matches Err(e) && e@ == m,
        },
{
    let suffix = cat2(".", ext);
    match listing {
        Err(e) => Err(cat4("read_dir ", dir, ": ", e.as_str())),
        Ok(entries) => {
            let ghost all = listing_of(Ok(entries))->Ok_0;
            let mut i: usize = 0;
            while i < entries.len()
                invariant
                    i <= entries@.len(),
                    all == entries@.map_values(|r: Result<DirEntry, String>| entry_of(r)),
                    archive_among(all, ext@, 0) == archive_among(all, ext@, i as int),
                    suffix@ == "."@ + ext@,
                    listing_of(listing) == (Ok::<Seq<Result<EntryModel, Seq<char>>>, Seq<char>>(all)),
                decreases entries.len() - i,
            {
                assert(all[i as int] == entry_of(entries@[i as int]));
                match &entries[i] {
                    Err(e) => {
                        return Err(e.clone());
                    },
                    Ok(entry) => {
                        let name: &str = match &entry.name {
                            Some(n) => n.as_str(),
                            None => "",
                        };
                        if ends_with(name, suffix.as_str()) && !ends_with(name, ".sha256") {
                            return Ok(entry.path.clone());
                        }
                    },
                }
                i += 1;
            }
            let head = cat3("no `*", suffix.as_str(), "` asset downloaded into ");
            let message = cat3(head.as_str(), dir, " (release may lack this platform)");
            assert("no `*"@ + ("."@ + ext@) =~= "no `*."@ + ext@) by {
                reveal_strlit("no `*");
                reveal_strlit("no `*.");
                reveal_strlit(".");
            }
            Err(message)
        },
    }
}

// ── Checksum ────────────────────────────────────────────────────────────────

/// What a checksum says of an archive.
#[derive(Debug)]
pub enum Check {
    /// The archive is what the checksum says.
    Intact,
    /// The archive is something else.
    Mismatch(String),
    /// Nothing, with a warning where there is one to give.
    Unverified(Option<String>),
}

/// What a checksum says of an archive.
pub enum CheckModel {
    Intact,
    Mismatch(Seq<char>),
    Unverified(Option<Seq<char>>),
}

impl View for Check {
    type V = CheckModel;

    open spec fn view(&self) -> CheckModel {
        match *self {
            Check::Intact => CheckModel::Intact,
            Check::Mismatch(m) => CheckModel::Mismatch(m@),
            Check::Unverified(w) => CheckModel::Unverified(text_of(w)),
        }
    }
}

/// What the hash `actual` says of an archive whose checksum file holds
/// `expected`, where there is a hash.
pub open spec fn hash_check(archive: Seq<char>, expected: Seq<char>, actual: Option<Seq<char>>) -> CheckModel {
    match actual {
        Some(hash) => if same_but_case(hash, expected) {
            CheckModel::Intact
        } else {
            CheckModel::Mismatch(
                "checksum mismatch for "@ + archive + ":\n  expected: "@ + expected + ("\n  actual:   "@
                    + hash),
            )
        },
        None => CheckModel::Unverified(
            Some("warning: no sha256sum/shasum available, skipping verification"@),
        ),
    }
}

/// What the checksum file of an archive holds, where there is one and it holds
/// something; otherwise, that nothing can be verified.
pub open spec fn expected_hash(archive: Seq<char>, contents: Option<Seq<char>>) -> Result<Seq<char>, CheckModel> {
    match contents {
        None => Err(
            CheckModel::Unverified(Some("warning: no checksum file for "@ + archive + ", skipping"@)),
        ),
        Some(c) => match first_word(c) {
            Some(w) => Ok(w),
            None => Err(CheckModel::Unverified(None)),
        },
    }
}

/// The hash that a hashing tool printed, where it ran and succeeded.
pub open spec fn printed_hash(output: Option<OutputModel>) -> Option<Seq<char>> {
    match output {
        Some(out) => if success(out.code) {
            first_word(out.stdout)
        } else {
            None
        },
        None => None,
    }
}

/// What the checksum file of an archive holds.
pub fn read_checksum(archive: &str, contents: Option<String>) -> (r: Result<String, Check>)
    ensures
        match expected_hash(archive@, text_of(contents)) {
            Ok(w) => r matches Ok(s) && s@ == w,
            Err(c) => r matches Err(k) && k@ == c,
        },
{
    match contents {
        None => {
            let warning = cat3("warning: no checksum file for ", archive, ", skipping");
            Err(Check::Unverified(Some(warning)))
        },
        Some(c) => match word(c.as_str()) {
            Some(w) => Ok(w),
            None => Err(Check::Unverified(None)),
        },
    }
}

/// Best-effort SHA-256 verification: warn and skip where no hashing tool is
/// available.
pub fn verify_checksum(archive: &str, expected: &str, actual: Option<String>) -> (r: Check)
    ensures
        r@ == hash_check(archive@, expected@, text_of(actual)),
{
    match actual {
        Some(hash) => {
            if same_ignoring_case(hash.as_str(), expected) {
                Check::Intact
            } else {
                let head = cat4("checksum mismatch for ", archive, ":\n  expected: ", expected);
                let tail = cat2("\n  actual:   ", hash.as_str());
                Check::Mismatch(cat2(head.as_str(), tail.as_str()))
            }
        },
        None => Check::Unverified(
            Some("warning: no sha256sum/shasum available, skipping verification".to_owned()),
        ),
    }
}

/// A command line.
#[derive(Debug)]
pub struct CommandLine {
    /// The program.
    pub program: String,
    /// Its arguments.
    pub args: Vec<String>,
}

/// A command line.
#[verifier::ext_equal]
pub struct CommandModel {
    pub program: Seq<char>,
    pub args: Seq<Seq<char>>,
}

impl View for CommandLine {
    type V = CommandModel;

    open spec fn view(&self) -> CommandModel {
        CommandModel { program: self.program@, args: texts(self.args@) }
    }
}

/// The hashing tool to try first, and the one to try where that gave nothing.
pub open spec fn hash_command(archive: Seq<char>, second: bool) -> CommandModel {
    if second {
        CommandModel { program: "shasum"@, args: seq!["-a"@, "256"@, archive] }
    } else {
        CommandModel { program: "sha256sum"@, args: seq![archive] }
    }
}

/// The hashing tool to try first, and the one to try where that gave nothing.
pub fn sha256_command(archive: &str, second: bool) -> (r: CommandLine)
    ensures
        r@ == hash_command(archive@, second),
{
    let mut args: Vec<String> = Vec::new();
    assert(texts(args@) =~= Seq::<Seq<char>>::empty());
    if second {
        add_text(&mut args, "-a");
        add_text(&mut args, "256");
        add_text(&mut args, archive);
        assert(texts(args@) =~= seq!["-a"@, "256"@, archive@]);
        CommandLine { program: "shasum".to_owned(), args }
    } else {
        add_text(&mut args, archive);
        assert(texts(args@) =~= seq![archive@]);
        CommandLine { program: "sha256sum".to_owned(), args }
    }
}

/// The hash that a hashing tool printed, where it ran and succeeded.
pub fn sha256_hex(output: Option<ProcessOutput>) -> (r: Option<String>)
    ensures
        text_of(r) == printed_hash(
            match output {
                Some(out) => Some(out@),
                None => None,
            },
        ),
{
    match output {
        Some(out) => {
            if succeeded(out.code) {
                let line = lossy(&out.stdout);
                word(line.as_str())
            } else {
                None
            }
        },
        None => None,
    }
}

// ── Extraction ──────────────────────────────────────────────────────────────

/// How an archive is unpacked into `dest`, where its kind is known.
pub open spec fn unpack_command(archive: Seq<char>, dest: Seq<char>, ext: Seq<char>) -> Result<CommandModel, Seq<char>> {
    if ext == "tar.gz"@ {
        Ok(CommandModel { program: "tar"@, args: seq!["-xzf"@, archive, "-C"@, dest] })
    } else if ext == "zip"@ {
        Ok(CommandModel { program: "unzip"@, args: seq!["-qo"@, archive, "-d"@, dest] })
    } else {
        Err("unsupported archive extension: "@ + ext)
    }
}

/// What is wrong with the unpacking of an archive, if anything.
pub open spec fn unpack_error(archive: Seq<char>, exit: Result<ExitModel, Seq<char>>) -> Option<Seq<char>> {
    match exit {
        Err(e) => Some("failed to extract "@ + archive + ": "@ + e),
        Ok(x) => if success(x.code) {
            None
        } else {
            Some("extraction of "@ + archive + " failed ("@ + x.status + ")"@)
        },
    }
}

/// How an archive is unpacked into `dest`.
pub fn extract(archive: &str, dest: &str, ext: &str) -> (r: Result<CommandLine, String>)
    ensures
        match unpack_command(archive@, dest@, ext@) {
            Ok(c) => r matches Ok(l) && l@ == c,
            Err(m) => r matches Err(e) && e@ == m,
        },
{
    let mut args: Vec<String> = Vec::new();
    assert(texts(args@) =~= Seq::<Seq<char>>::empty());
    if same(ext, "tar.gz") {
        add_text(&mut args, "-xzf");
        add_text(&mut args, archive);
        add_text(&mut args, "-C");
        add_text(&mut args, dest);
        assert(texts(args@) =~= seq!["-xzf"@, archive@, "-C"@, dest@]);
        Ok(CommandLine { program: "tar".to_owned(), args })
    } else if same(ext, "zip") {
        add_text(&mut args, "-qo");
        add_text(&mut args, archive);
        add_text(&mut args, "-d");
        add_text(&mut args, dest);
        assert(texts(args@) =~= seq!["-qo"@, archive@, "-d"@, dest@]);
        Ok(CommandLine { program: "unzip".to_owned(), args })
    } else {
        Err(cat2("unsupported archive extension: ", ext))
    }
}

/// The verdict on the unpacking of an archive.
pub fn extracted(archive: &str, exit: Result<Exit, String>) -> (r: Result<(), String>)
    ensures
        verdict(r) == unpack_error(archive@, ended(exit)),
{
    match exit {
        Err(e) => Err(cat4("failed to extract ", archive, ": ", e.as_str())),
        Ok(x) => {
            if succeeded(x.code) {
                Ok(())
            } else {
                Err(cat5("extraction of ", archive, " failed (", x.status.as_str(), ")"))
            }
        },
    }
}

/// The paths of the directories among entries; entries that could not be read
/// are left out.
pub open spec fn dirs_among(entries: Seq<Result<EntryModel, Seq<char>>>) -> Seq<Seq<char>>
    decreases entries.len(),
{
    if entries.len() == 0 {
        Seq::empty()
    } else {
        let front = dirs_among(entries.drop_last());
        match entries.last() {
            Ok(e) => if e.is_dir {
                front.push(e.path)
            } else {
                front
            },
            Err(_) => front,
        }
    }
}

/// The single subdirectory of `dir`, or what is wrong.
pub open spec fn subdir_of(dir: Seq<char>, listing: ListingModel) -> Result<Seq<char>, Seq<char>> {
    match listing {
        Err(e) => Err("read_dir "@ + dir + ": "@ + e),
        Ok(entries) => {
            let dirs = dirs_among(entries);
            if dirs.len() == 1 {
                Ok(dirs[0])
            } else {
                Err(
                    "expected one top-level dir in archive, found "@ + decimal(dirs.len()) + " in "@ + dir,
                )
            }
        },
    }
}

/// The single subdirectory inside `dir` (the archive's top-level
/// `beamtalk-<version>/`); an error if the layout isn't a single directory.
pub fn single_subdir(dir: &str, listing: Listing) -> (r: Result<String, String>)
    ensures
        match subdir_of(dir@, listing_of(listing)) {
            Ok(path) => r matches Ok(s) && s@ == path,
            Err(m) => r matches Err(e) && e@ == m,
        },
{
    match listing {
        Err(e) => Err(cat4("read_dir ", dir, ": ", e.as_str())),
        Ok(entries) => {
            let ghost all = listing_of(Ok(entries))->Ok_0;
            let mut dirs: Vec<String> = Vec::new();
            let mut i: usize = 0;
            assert(all.take(0) =~= Seq::<Result<EntryModel, Seq<char>>>::empty());
            assert(texts(dirs@) =~= dirs_among(all.take(0)));
            while i < entries.len()
                invariant
                    i <= entries@.len(),
                    all == entries@.map_values(|r: Result<DirEntry, String>| entry_of(r)),
                    texts(dirs@) == dirs_among(all.take(i as int)),
                decreases entries.len() - i,
            {
                assert(all[i as int] == entry_of(entries@[i as int]));
                assert(all.take(i + 1).drop_last() =~= all.take(i as int));
                match &entries[i] {
                    Ok(entry) => {
                        if entry.is_dir {
                            add_text(&mut dirs, entry.path.as_str());
                        }
                    },
                    Err(_) => {},
                }
                i += 1;
            }
            assert(all.take(i as int) =~= all);
            assert(texts(dirs@).len() == dirs@.len());
            if dirs.len() == 1 {
                assert(texts(dirs@)[0] == dirs@[0]@);
                Ok(dirs.remove(0))
            } else {
                let n = decimal_text(dirs.len() as u64);
                Err(cat4("expected one top-level dir in archive, found ", n.as_str(), " in ", dir))
            }
        },
    }
}

/// What the checksum file of an archive and its hash say of it, where there are
/// such.
pub open spec fn checksum_verdict(
    archive: Seq<char>,
    contents: Option<Seq<char>>,
    hash: Option<Seq<char>>,
) -> CheckModel {
    match expected_hash(archive, contents) {
        Ok(expected) => hash_check(archive, expected, hash),
        Err(check) => check,
    }
}

/// An archive is refused if and only if its checksum file begins with a word,
/// there is a hash, and the two differ in more than the case of letters. With no
/// checksum file, nothing in it, or no hash, it is let through.
pub proof fn law_refused_exactly_on_mismatch(
    archive: Seq<char>,
    contents: Option<Seq<char>>,
    hash: Option<Seq<char>>,
)
    ensures
        checksum_verdict(archive, contents, hash) is Mismatch <==> {
            &&& contents is Some
            &&& first_word(contents->0) is Some
            &&& hash is Some
            &&& !same_but_case(hash->0, first_word(contents->0)->0)
        },
{
}

/// Whatever is downloaded as the archive is named like one, and is no checksum
/// file.
pub proof fn law_archive_is_one(
    entries: Seq<Result<EntryModel, Seq<char>>>,
    ext: Seq<char>,
    i: int,
    path: Seq<char>,
)
    requires
        archive_among(entries, ext, i) == Some(Ok::<Seq<char>, Seq<char>>(path)),
    ensures
        exists|k: int|
            i <= k < entries.len() && (#[trigger] entries[k] matches Ok(e) && e.path == path && is_archive(e, ext)),
    decreases entries.len() - i,
{
    match entries[i] {
        Ok(entry) => {
            if !is_archive(entry, ext) {
                law_archive_is_one(entries, ext, i + 1, path);
            }
        },
        Err(_) => {},
    }
}

} // verus!
