//! What is downloaded, found, checked and unpacked, said of the names, the
//! listings and the outputs themselves.

use vstd::prelude::*;

use crate::archive::{
    archive_among, archive_of, asset_pattern, checksum_verdict, dirs_among, download_args, hash_command, printed_hash,
    subdir_of, unpack_command, unpack_error, CheckModel, EntryModel,
};
use crate::output::{ExitModel, OutputModel};
use crate::text::{decimal, first_word, has_suffix, occurs, same_but_case};
use crate::text_laws::{law_has_suffix, lemma_occurs};
use crate::toolchain::platform_of;
use crate::version::SpecModel;

verus! {

/// Whether an entry has a name that ends with a dot and `ext`, and not with
/// `.sha256`.
pub open spec fn named_like(r: Result<EntryModel, Seq<char>>, ext: Seq<char>) -> bool {
    r matches Ok(e) && (e.name matches Some(n) && has_suffix(n, "."@ + ext) && !has_suffix(n, ".sha256"@))
}

/// The search among the entries from `i` on.
proof fn lemma_archive_among(entries: Seq<Result<EntryModel, Seq<char>>>, ext: Seq<char>, i: int, k: int)
    requires
        0 <= i <= k <= entries.len(),
        forall|j: int| i <= j < k ==> (#[trigger] entries[j]) is Ok && !named_like(entries[j], ext),
    ensures
        k == entries.len() ==> archive_among(entries, ext, i) is None,
        k < entries.len() && named_like(entries[k], ext) ==> archive_among(entries, ext, i) == Some(
            Ok::<Seq<char>, Seq<char>>(entries[k]->Ok_0.path),
        ),
        k < entries.len() && entries[k] is Err ==> archive_among(entries, ext, i) == Some(
            Err::<Seq<char>, Seq<char>>(entries[k]->Err_0),
        ),
    decreases k - i,
{
    reveal_strlit("");
    reveal_strlit(".");
    if i < k {
        assert(entries[i] is Ok && !named_like(entries[i], ext));
        lemma_archive_among(entries, ext, i + 1, k);
    }
}

/// The archive that was downloaded is the first entry that is named like one,
/// whatever the extension is: where a listing shows one, and could be read up to
/// there, its path is given.
pub proof fn law_archive_is_found(
    dir: Seq<char>,
    ext: Seq<char>,
    entries: Seq<Result<EntryModel, Seq<char>>>,
    k: int,
    path: Seq<char>,
    name: Seq<char>,
)
    requires
        0 <= k < entries.len(),
        entries[k] matches Ok(e) && e.path == path && e.name == Some(name),
        has_suffix(name, "."@ + ext),
        !has_suffix(name, ".sha256"@),
        forall|j: int| 0 <= j < k ==> (#[trigger] entries[j]) is Ok && !named_like(entries[j], ext),
    ensures
        archive_of(dir, ext, Ok(entries)) == Ok::<Seq<char>, Seq<char>>(path),
{
    lemma_archive_among(entries, ext, 0, k);
}

/// Whatever is given as the archive is the path of an entry whose name ends with
/// a dot and the extension and not with `.sha256`, and no entry before it is
/// named so, or could not be read.
pub proof fn law_archive_is_named(
    dir: Seq<char>,
    ext: Seq<char>,
    entries: Seq<Result<EntryModel, Seq<char>>>,
    path: Seq<char>,
)
    requires
        archive_of(dir, ext, Ok(entries)) == Ok::<Seq<char>, Seq<char>>(path),
    ensures
        exists|k: int|
            0 <= k < entries.len() && named_like(#[trigger] entries[k], ext) && entries[k]->Ok_0.path == path && (forall|
                j: int,
            |
                0 <= j < k ==> (#[trigger] entries[j]) is Ok && !named_like(entries[j], ext)),
{
    let k = lemma_stop(entries, ext, 0);
    lemma_archive_among(entries, ext, 0, k);
}

/// Where the search among the entries stops.
proof fn lemma_stop(entries: Seq<Result<EntryModel, Seq<char>>>, ext: Seq<char>, i: int) -> (k: int)
    requires
        0 <= i <= entries.len(),
    ensures
        i <= k <= entries.len(),
        forall|j: int| i <= j < k ==> (#[trigger] entries[j]) is Ok && !named_like(entries[j], ext),
        k < entries.len() ==> entries[k] is Err || named_like(entries[k], ext),
    decreases entries.len() - i,
{
    if i == entries.len() || entries[i] is Err || named_like(entries[i], ext) {
        i
    } else {
        lemma_stop(entries, ext, i + 1)
    }
}

/// No archive is given if and only if the directory could not be listed, an
/// entry could not be read in front of any that is named like an archive, or
/// none is named so; and each of these is said.
pub proof fn law_archive_is_missing(
    dir: Seq<char>,
    ext: Seq<char>,
    entries: Seq<Result<EntryModel, Seq<char>>>,
    k: int,
    error: Seq<char>,
)
    requires
        0 <= k <= entries.len(),
        forall|j: int| 0 <= j < k ==> (#[trigger] entries[j]) is Ok && !named_like(entries[j], ext),
    ensures
        archive_of(dir, ext, Err(error)) == Err::<Seq<char>, Seq<char>>("read_dir "@ + dir + ": "@ + error),
        k == entries.len() ==> archive_of(dir, ext, Ok(entries)) == Err::<Seq<char>, Seq<char>>(
            "no `*."@ + ext + "` asset downloaded into "@ + dir + " (release may lack this platform)"@,
        ),
        k < entries.len() && entries[k] is Err ==> archive_of(dir, ext, Ok(entries)) == Err::<Seq<char>, Seq<char>>(
            entries[k]->Err_0,
        ),
{
    lemma_archive_among(entries, ext, 0, k);
}

/// The platforms that there are releases for, the name that each goes by, and
/// the kind of its archive.
pub proof fn law_platforms(os: Seq<char>, arch: Seq<char>)
    ensures
        platform_of("linux"@, "x86_64"@) == Some(("linux-x86_64"@, "tar.gz"@)),
        platform_of("macos"@, "x86_64"@) == Some(("macos-x86_64"@, "tar.gz"@)),
        platform_of("macos"@, "aarch64"@) == Some(("macos-arm64"@, "tar.gz"@)),
        platform_of("windows"@, "x86_64"@) == Some(("windows-x86_64"@, "zip"@)),
        platform_of(os, arch) is Some ==> arch == "x86_64"@ || (os == "macos"@ && arch == "aarch64"@),
        platform_of(os, arch) is Some ==> os == "linux"@ || os == "macos"@ || os == "windows"@,
{
    reveal_strlit("linux");
    reveal_strlit("macos");
    reveal_strlit("windows");
    reveal_strlit("x86_64");
    reveal_strlit("aarch64");
    assert("linux"@.len() == 5 && "macos"@.len() == 5 && "windows"@.len() == 7);
    assert("linux"@[0] == 'l' && "macos"@[0] == 'm');
    assert("x86_64"@.len() == 6 && "aarch64"@.len() == 7);
}

/// The assets that are asked for: the archive of the platform, of any version.
pub proof fn law_assets()
    ensures
        asset_pattern("linux-x86_64"@, "tar.gz"@) == "beamtalk-*-linux-x86_64.tar.gz"@,
        asset_pattern("macos-x86_64"@, "tar.gz"@) == "beamtalk-*-macos-x86_64.tar.gz"@,
        asset_pattern("macos-arm64"@, "tar.gz"@) == "beamtalk-*-macos-arm64.tar.gz"@,
        asset_pattern("windows-x86_64"@, "zip"@) == "beamtalk-*-windows-x86_64.zip"@,
{
    reveal_strlit("beamtalk-*-");
    reveal_strlit(".");
    reveal_strlit("linux-x86_64");
    reveal_strlit("macos-x86_64");
    reveal_strlit("macos-arm64");
    reveal_strlit("windows-x86_64");
    reveal_strlit("tar.gz");
    reveal_strlit("zip");
    reveal_strlit("beamtalk-*-linux-x86_64.tar.gz");
    reveal_strlit("beamtalk-*-macos-x86_64.tar.gz");
    reveal_strlit("beamtalk-*-macos-arm64.tar.gz");
    reveal_strlit("beamtalk-*-windows-x86_64.zip");
    assert(asset_pattern("linux-x86_64"@, "tar.gz"@) =~= "beamtalk-*-linux-x86_64.tar.gz"@);
    assert(asset_pattern("macos-x86_64"@, "tar.gz"@) =~= "beamtalk-*-macos-x86_64.tar.gz"@);
    assert(asset_pattern("macos-arm64"@, "tar.gz"@) =~= "beamtalk-*-macos-arm64.tar.gz"@);
    assert(asset_pattern("windows-x86_64"@, "zip"@) =~= "beamtalk-*-windows-x86_64.zip"@);
}

/// The pattern of a platform stands for any version of the asset that is named
/// after the platform.
pub proof fn law_asset_pattern(plat: Seq<char>, ext: Seq<char>)
    ensures
        asset_pattern(plat, ext) == "beamtalk-*-"@ + plat + "."@ + ext,
{
}

/// What is asked for matches what is looked for: an asset that the pattern
/// stands for is found by its name once it is there, and its checksum file is
/// not taken for it.
pub proof fn law_asset_is_found(plat: Seq<char>, ext: Seq<char>, version: Seq<char>, path: Seq<char>)
    requires
        ext == "tar.gz"@ || ext == "zip"@,
    ensures
        ({
            let name = "beamtalk-"@ + version + "-"@ + plat + "."@ + ext;
            let asset = EntryModel { path, name: Some(name), is_dir: false };
            let sums = EntryModel { path, name: Some(name + ".sha256"@), is_dir: false };
            &&& named_like(Ok(asset), ext)
            &&& !named_like(Ok(sums), ext)
        }),
{
    reveal_strlit("tar.gz");
    reveal_strlit("zip");
    reveal_strlit(".");
    reveal_strlit(".sha256");
    let front = "beamtalk-"@ + version + "-"@ + plat;
    let name = front + "."@ + ext;
    assert(name =~= front + ("."@ + ext));
    law_has_suffix(name, "."@ + ext);
    let sums = name + ".sha256"@;
    assert(sums == name + ".sha256"@);
    law_has_suffix(sums, ".sha256"@);
    if has_suffix(name, ".sha256"@) {
        law_has_suffix(name, ".sha256"@);
        let a = choose|a: Seq<char>| name == #[trigger] (a + ".sha256"@);
        assert(name.last() == '6');
        assert(name.last() == ext.last());
    }
}

/// What `gh` is run with: the release's tag where it has one, the repository, the
/// pattern of the asset and of its checksum file, and where to put them.
pub proof fn law_download_args(pattern: Seq<char>, dir: Seq<char>, v: Seq<char>)
    ensures
        ({
            let rest = seq![
                "--repo"@,
                "jamesc/beamtalk"@,
                "--pattern"@,
                pattern,
                "--pattern"@,
                pattern + ".sha256"@,
                "--dir"@,
                dir,
                "--clobber"@,
            ];
            &&& download_args(SpecModel::Latest, pattern, dir) == seq!["release"@, "download"@] + rest
            &&& download_args(SpecModel::Nightly, pattern, dir) == seq!["release"@, "download"@, "nightly"@] + rest
            &&& download_args(SpecModel::Edge, pattern, dir) == seq!["release"@, "download"@, "edge"@] + rest
            &&& download_args(SpecModel::Exact(v), pattern, dir) == seq!["release"@, "download"@, "v"@ + v] + rest
        }),
{
    let head = seq!["release"@, "download"@];
    assert(head + Seq::<Seq<char>>::empty() =~= head);
    assert(head + seq!["nightly"@] =~= seq!["release"@, "download"@, "nightly"@]);
    assert(head + seq!["edge"@] =~= seq!["release"@, "download"@, "edge"@]);
    assert(head + seq!["v"@ + v] =~= seq!["release"@, "download"@, "v"@ + v]);
}

/// A hash is what a hashing tool that exited with 0 printed first.
pub proof fn law_printed_hash(output: Option<OutputModel>, hash: Seq<char>)
    ensures
        printed_hash(output) == Some(hash) <==> (output matches Some(out) && out.code == Some(0i32) && first_word(
            out.stdout,
        ) == Some(hash)),
{
}

/// Which tools hash an archive: `sha256sum`, and `shasum` for 256 bits behind it.
pub proof fn law_hash_commands(archive: Seq<char>)
    ensures
        hash_command(archive, false).program == "sha256sum"@,
        hash_command(archive, false).args == seq![archive],
        hash_command(archive, true).program == "shasum"@,
        hash_command(archive, true).args == seq!["-a"@, "256"@, archive],
{
}

/// An archive is intact if and only if its checksum file begins with its hash,
/// but for the case of letters. Where there is nothing to compare, it goes
/// unverified; the user is warned where a file or a tool is missing, and not
/// where the file is empty.
pub proof fn law_checksum(archive: Seq<char>, contents: Option<Seq<char>>, hash: Option<Seq<char>>)
    ensures
        checksum_verdict(archive, contents, hash) is Intact <==> {
            contents matches Some(c) && (first_word(c) matches Some(w) && (hash matches Some(h) && same_but_case(h, w)))
        },
        checksum_verdict(archive, contents, hash) is Unverified <==> contents is None || first_word(contents->0) is None
            || hash is None,
        contents is None ==> (checksum_verdict(archive, contents, hash) matches CheckModel::Unverified(Some(w)) && occurs(
            w,
            archive,
        )),
        contents is Some && first_word(contents->0) is None ==> checksum_verdict(archive, contents, hash)
            == CheckModel::Unverified(None),
        contents is Some && first_word(contents->0) is Some && hash is None ==> (checksum_verdict(archive, contents, hash)
            matches CheckModel::Unverified(Some(_))),
{
    let a = "warning: no checksum file for "@;
    lemma_occurs(a, archive, ", skipping"@);
}

/// A mismatch shows the archive, what was expected, and what was found.
pub proof fn law_mismatch_is_shown(archive: Seq<char>, contents: Seq<char>, expected: Seq<char>, hash: Seq<char>)
    requires
        first_word(contents) == Some(expected),
        !same_but_case(hash, expected),
    ensures
        checksum_verdict(archive, Some(contents), Some(hash)) == CheckModel::Mismatch(
            "checksum mismatch for "@ + archive + ":\n  expected: "@ + expected + "\n  actual:   "@ + hash,
        ),
{
    let head = "checksum mismatch for "@ + archive + ":\n  expected: "@ + expected;
    assert(head + ("\n  actual:   "@ + hash) =~= head + "\n  actual:   "@ + hash);
}

/// How each kind of archive is unpacked; no other kind is.
pub proof fn law_unpack(archive: Seq<char>, dest: Seq<char>, ext: Seq<char>)
    ensures
        unpack_command(archive, dest, "tar.gz"@) matches Ok(c) && c.program == "tar"@ && c.args == seq![
            "-xzf"@,
            archive,
            "-C"@,
            dest,
        ],
        unpack_command(archive, dest, "zip"@) matches Ok(c) && c.program == "unzip"@ && c.args == seq![
            "-qo"@,
            archive,
            "-d"@,
            dest,
        ],
        unpack_command(archive, dest, ext) is Ok <==> ext == "tar.gz"@ || ext == "zip"@,
{
    reveal_strlit("tar.gz");
    reveal_strlit("zip");
    assert("tar.gz"@.len() == 6 && "zip"@.len() == 3);
}

/// An archive was unpacked if and only if the program could be run and exited
/// with 0; otherwise it is said why.
pub proof fn law_unpacked(archive: Seq<char>, exit: Result<ExitModel, Seq<char>>)
    ensures
        unpack_error(archive, exit) is None <==> (exit matches Ok(x) && x.code == Some(0i32)),
        exit matches Err(e) ==> unpack_error(archive, exit) == Some("failed to extract "@ + archive + ": "@ + e),
{
}

/// Whether an entry is a directory.
pub open spec fn dir_entry(r: Result<EntryModel, Seq<char>>) -> bool {
    r matches Ok(e) && e.is_dir
}

/// The directories of two lists in a row are those of each.
proof fn lemma_dirs_concat(a: Seq<Result<EntryModel, Seq<char>>>, b: Seq<Result<EntryModel, Seq<char>>>)
    ensures
        dirs_among(a + b) == dirs_among(a) + dirs_among(b),
    decreases b.len(),
{
    if b.len() == 0 {
        assert(a + b =~= a);
        assert(dirs_among(a) + dirs_among(b) =~= dirs_among(a));
    } else {
        assert((a + b).drop_last() =~= a + b.drop_last());
        assert((a + b).last() == b.last());
        lemma_dirs_concat(a, b.drop_last());
        assert(dirs_among(a + b) =~= dirs_among(a) + dirs_among(b));
    }
}

/// Where no entry is a directory there are none.
proof fn lemma_no_dirs(entries: Seq<Result<EntryModel, Seq<char>>>)
    requires
        forall|j: int| 0 <= j < entries.len() ==> !dir_entry(#[trigger] entries[j]),
    ensures
        dirs_among(entries) == Seq::<Seq<char>>::empty(),
    decreases entries.len(),
{
    if entries.len() > 0 {
        let front = entries.drop_last();
        assert forall|j: int| 0 <= j < front.len() implies !dir_entry(#[trigger] front[j]) by {
            assert(!dir_entry(entries[j]));
        }
        lemma_no_dirs(front);
        assert(!dir_entry(entries[entries.len() - 1]));
    }
}

/// One directory.
proof fn lemma_one_dir(e: EntryModel)
    requires
        e.is_dir,
    ensures
        dirs_among(seq![Ok::<EntryModel, Seq<char>>(e)]) == seq![e.path],
{
    let one = seq![Ok::<EntryModel, Seq<char>>(e)];
    reveal_with_fuel(dirs_among, 2);
    assert(one.drop_last() =~= Seq::<Result<EntryModel, Seq<char>>>::empty());
    assert(Seq::<Seq<char>>::empty().push(e.path) =~= seq![e.path]);
}

/// What is promoted is the one directory of the archive; files beside it, and
/// entries that could not be read, do not count.
pub proof fn law_single_subdir(
    dir: Seq<char>,
    before: Seq<Result<EntryModel, Seq<char>>>,
    e: EntryModel,
    after: Seq<Result<EntryModel, Seq<char>>>,
)
    requires
        e.is_dir,
        forall|j: int| 0 <= j < before.len() ==> !dir_entry(#[trigger] before[j]),
        forall|j: int| 0 <= j < after.len() ==> !dir_entry(#[trigger] after[j]),
    ensures
        subdir_of(dir, Ok(before + seq![Ok::<EntryModel, Seq<char>>(e)] + after)) == Ok::<Seq<char>, Seq<char>>(e.path),
{
    let one = seq![Ok::<EntryModel, Seq<char>>(e)];
    lemma_dirs_concat(before + one, after);
    lemma_dirs_concat(before, one);
    lemma_no_dirs(before);
    lemma_no_dirs(after);
    lemma_one_dir(e);
    assert(dirs_among(before + one + after) =~= seq![e.path]);
}

/// Nothing is promoted where there is no directory, where there are several, or
/// where there is no listing.
pub proof fn law_no_single_subdir(
    dir: Seq<char>,
    entries: Seq<Result<EntryModel, Seq<char>>>,
    i: int,
    j: int,
    error: Seq<char>,
)
    ensures
        0 <= i < j < entries.len() && dir_entry(entries[i]) && dir_entry(entries[j]) ==> subdir_of(dir, Ok(entries)) is Err,
        (forall|k: int| 0 <= k < entries.len() ==> !dir_entry(#[trigger] entries[k])) ==> subdir_of(dir, Ok(entries)) == Err::<
            Seq<char>,
            Seq<char>,
        >("expected one top-level dir in archive, found "@ + decimal(0) + " in "@ + dir),
        subdir_of(dir, Err(error)) == Err::<Seq<char>, Seq<char>>("read_dir "@ + dir + ": "@ + error),
{
    if 0 <= i < j < entries.len() && dir_entry(entries[i]) && dir_entry(entries[j]) {
        let a = entries.take(i);
        let x = seq![entries[i]];
        let b = entries.subrange(i + 1, j);
        let y = seq![entries[j]];
        let c = entries.skip(j + 1);
        assert(entries =~= a + x + b + y + c);
        lemma_dirs_concat(a + x + b + y, c);
        lemma_dirs_concat(a + x + b, y);
        lemma_dirs_concat(a + x, b);
        lemma_dirs_concat(a, x);
        assert(x =~= seq![Ok::<EntryModel, Seq<char>>(entries[i]->Ok_0)]);
        assert(y =~= seq![Ok::<EntryModel, Seq<char>>(entries[j]->Ok_0)]);
        lemma_one_dir(entries[i]->Ok_0);
        lemma_one_dir(entries[j]->Ok_0);
        assert(dirs_among(entries).len() >= 2);
    }
    if forall|k: int| 0 <= k < entries.len() ==> !dir_entry(#[trigger] entries[k]) {
        lemma_no_dirs(entries);
    }
}

} // verus!
