//! The course of a download, stage by stage.

use vstd::prelude::*;

use crate::archive::{
    archive_of, asset_pattern, download_args, printed_hash, subdir_of, unpack_command, CommandModel, ListingModel,
};
use crate::download::{
    download_awaits, download_begins, download_next, DownloadActionModel, DownloadErrorModel, DownloadEventModel,
    DownloadStage, DownloadState, PlacesModel,
};
use crate::output::{ExitModel, OutputModel};
use crate::text::{first_word, has_suffix, same_but_case};
use crate::text_laws::law_has_suffix;
use crate::toolchain::platform_of;
use crate::version::SpecModel;

verus! {

/// A download begins with a fresh directory, for a platform that there are
/// releases for, and with nothing for any other.
pub proof fn law_download_begins(spec: SpecModel, os: Seq<char>, arch: Seq<char>, places: PlacesModel)
    ensures
        ({
            let step = download_begins(spec, os, arch, places);
            &&& step.state.spec == spec
            &&& step.state.places == places
            &&& step.warning is None
            &&& match platform_of(os, arch) {
                Some((plat, ext)) => {
                    &&& step.state.stage is Preparing
                    &&& step.state.platform == plat
                    &&& step.state.ext == ext
                    &&& step.action == (DownloadActionModel::MakeDir { dir: places.tmp, fresh: true })
                },
                None => {
                    &&& step.state.stage is Over
                    &&& step.action == DownloadActionModel::Done(
                        Some(DownloadErrorModel::Failed("unsupported platform: "@ + os + "-"@ + arch)),
                    )
                },
            }
        }),
{
}

/// What is done on entering each stage, and with what: the release of the
/// platform is fetched into the temporary directory, what is there is listed, the
/// checksum file beside the archive is read, the archive itself is hashed, and it
/// is unpacked into the staging directory; what that holds is moved to where the
/// install is to be, and the temporary directory goes.
pub proof fn law_download_actions(st: DownloadState, e: DownloadEventModel)
    requires
        download_awaits(st.stage, e),
    ensures
        ({
            let step = download_next(st, e);
            let now = step.state;
            match now.stage {
                DownloadStage::Preparing => false,
                DownloadStage::Fetching => step.action matches DownloadActionModel::Run(c) && c.program == "gh"@ && c.args
                    == download_args(st.spec, asset_pattern(st.platform, st.ext), st.places.tmp),
                DownloadStage::Finding => step.action == (DownloadActionModel::List { dir: st.places.tmp }),
                DownloadStage::Checking => step.action == (DownloadActionModel::ReadChecksum {
                    file: now.archive + ".sha256"@,
                }),
                DownloadStage::Hashing { second: false } => step.action matches DownloadActionModel::Hash(c) && c.program
                    == "sha256sum"@ && c.args == seq![st.archive],
                DownloadStage::Hashing { second: true } => step.action matches DownloadActionModel::Hash(c) && c.program
                    == "shasum"@ && c.args == seq!["-a"@, "256"@, st.archive],
                DownloadStage::Staging => step.action == (DownloadActionModel::MakeDir {
                    dir: st.places.staging,
                    fresh: false,
                }),
                DownloadStage::Extracting => step.action matches DownloadActionModel::Run(c) && unpack_command(
                    st.archive,
                    st.places.staging,
                    st.ext,
                ) == Ok::<CommandModel, Seq<char>>(c),
                DownloadStage::Promoting => step.action == (DownloadActionModel::List { dir: st.places.staging }),
                DownloadStage::Sheltering => st.places.parent is Some && step.action == (DownloadActionModel::MakeDir {
                    dir: st.places.parent->0,
                    fresh: false,
                }),
                DownloadStage::Installing => step.action == (DownloadActionModel::Install {
                    from: now.root,
                    to: st.places.prefix,
                }),
                DownloadStage::Cleaning => step.action == (DownloadActionModel::Remove { dir: st.places.tmp }),
                DownloadStage::Over => step.action is Done,
            }
        }),
{
}

/// What was asked for, where it goes, and what was found on the way stay as they
/// are: the archive that is hashed and unpacked is the one that was found, the
/// hash that it is held against is the one that was read, and what is moved into
/// place is what was unpacked.
pub proof fn law_download_keeps(st: DownloadState, e: DownloadEventModel)
    requires
        download_awaits(st.stage, e),
    ensures
        ({
            let now = download_next(st, e).state;
            &&& now.spec == st.spec
            &&& now.platform == st.platform
            &&& now.ext == st.ext
            &&& now.places == st.places
            &&& st.stage !is Finding ==> now.archive == st.archive
            &&& st.stage !is Checking ==> now.expected == st.expected
            &&& st.stage !is Promoting ==> now.root == st.root
        }),
{
}

/// A download goes on if and only if a program that was run exited with 0, and a
/// directory that was to be made was made; otherwise it is over, and what went
/// wrong is said. That a release is not handed out is told from any other
/// failure.
pub proof fn law_download_program(st: DownloadState, exit: Result<ExitModel, Seq<char>>)
    requires
        st.stage is Fetching || st.stage is Extracting,
    ensures
        ({
            let step = download_next(st, DownloadEventModel::Ran(exit));
            let good = exit matches Ok(x) && x.code == Some(0i32);
            &&& good && st.stage is Fetching ==> step.state.stage is Finding
            &&& good && st.stage is Extracting ==> step.state.stage is Promoting
            &&& !good ==> (step.action matches DownloadActionModel::Done(Some(_)))
            &&& (step.action matches DownloadActionModel::Done(Some(DownloadErrorModel::Refused(_)))) <==> st.stage is Fetching && (
            exit matches Ok(x) && x.code != Some(0i32))
            &&& (exit matches Err(error) ==> (step.action matches DownloadActionModel::Done(
                Some(DownloadErrorModel::Failed(m)),
            ) && has_suffix(m, error)))
        }),
{
    match exit {
        Err(error) => {
            let a = "failed to spawn `gh release download` (is `gh` installed?): "@;
            let b = "failed to extract "@ + st.archive + ": "@;
            law_has_suffix(a + error, error);
            law_has_suffix(b + error, error);
            assert(a + error == a + error);
            assert(b + error == b + error);
        },
        _ => {},
    }
}

/// What follows a directory that was made or moved, and what follows one that
/// was not.
pub proof fn law_download_directory(st: DownloadState, error: Seq<char>)
    requires
        download_awaits(st.stage, DownloadEventModel::Made(None)),
        st.stage is Staging ==> st.ext == "tar.gz"@ || st.ext == "zip"@,
    ensures
        ({
            let made = download_next(st, DownloadEventModel::Made(None)).state.stage;
            let failed = download_next(st, DownloadEventModel::Made(Some(error)));
            let text = failed.action->Done_0->0->Failed_0;
            &&& st.stage is Preparing ==> made is Fetching
            &&& st.stage is Staging ==> made is Extracting
            &&& st.stage is Sheltering ==> made is Installing
            &&& st.stage is Installing ==> made is Cleaning
            &&& failed.state.stage is Over
            &&& (failed.action matches DownloadActionModel::Done(Some(DownloadErrorModel::Failed(_))))
            &&& st.stage is Preparing ==> text == "mkdir "@ + st.places.tmp + ": "@ + error
            &&& st.stage is Staging ==> text == "mkdir "@ + st.places.staging + ": "@ + error
            &&& st.stage is Sheltering && st.places.parent is Some ==> text == "mkdir "@ + st.places.parent->0 + ": "@ + error
            &&& st.stage is Installing ==> text == "install "@ + st.root + " -> "@ + st.places.prefix + ": "@ + error
        }),
{
    reveal_strlit("tar.gz");
    reveal_strlit("zip");
    assert("install "@ + st.root + " -> "@ + st.places.prefix + (": "@ + error) =~= "install "@ + st.root + " -> "@
        + st.places.prefix + ": "@ + error);
}

/// The archive that a listing shows is the one whose checksum is looked for; and
/// the one directory that was unpacked is the one that is moved into place, once
/// the directory that it goes into is there, where there is one.
pub proof fn law_download_listing(st: DownloadState, listing: ListingModel)
    requires
        st.stage is Finding || st.stage is Promoting,
    ensures
        ({
            let step = download_next(st, DownloadEventModel::Listed(listing));
            if st.stage is Finding {
                match archive_of(st.places.tmp, st.ext, listing) {
                    Ok(archive) => step.state.stage is Checking && step.state.archive == archive,
                    Err(m) => step.action == DownloadActionModel::Done(Some(DownloadErrorModel::Failed(m))),
                }
            } else {
                match subdir_of(st.places.staging, listing) {
                    Ok(root) => {
                        &&& step.state.root == root
                        &&& st.places.parent is Some ==> step.state.stage is Sheltering
                        &&& st.places.parent is None ==> step.state.stage is Installing
                    },
                    Err(m) => step.action == DownloadActionModel::Done(Some(DownloadErrorModel::Failed(m))),
                }
            }
        }),
{
}

/// An archive with a checksum is hashed and held against it; one without is
/// unpacked all the same, with a warning where the file is missing.
pub proof fn law_download_checksum(st: DownloadState, contents: Option<Seq<char>>)
    requires
        st.stage is Checking,
    ensures
        ({
            let step = download_next(st, DownloadEventModel::Checksum(contents));
            match contents {
                None => step.state.stage is Staging && step.warning is Some,
                Some(c) => match first_word(c) {
                    None => step.state.stage is Staging && step.warning is None,
                    Some(w) => {
                        &&& step.state.stage == (DownloadStage::Hashing { second: false })
                        &&& step.state.expected == w
                        &&& step.warning is None
                    },
                },
            }
        }),
{
}

/// An archive is unpacked behind a hash if and only if the hash is the one that
/// was read, but for the case of letters; where the first tool gives none the
/// second is tried, and where that gives none either the user is warned.
pub proof fn law_download_hash(st: DownloadState, output: Option<OutputModel>)
    requires
        st.stage is Hashing,
    ensures
        ({
            let step = download_next(st, DownloadEventModel::Hashed(output));
            match printed_hash(output) {
                Some(h) => if same_but_case(h, st.expected) {
                    step.state.stage is Staging && step.warning is None
                } else {
                    step.action matches DownloadActionModel::Done(Some(DownloadErrorModel::Corrupt(_)))
                },
                None => if st.stage == (DownloadStage::Hashing { second: false }) {
                    step.state.stage == (DownloadStage::Hashing { second: true }) && step.warning is None
                } else {
                    step.state.stage is Staging && step.warning is Some
                },
            }
        }),
{
}

} // verus!
