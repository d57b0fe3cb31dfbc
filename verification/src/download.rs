//! Downloading and extracting a release: the order of the steps, and what each
//! makes of how the one before it went.

use vstd::prelude::*;

use crate::archive::{
    archive_of, asset_glob, asset_pattern, download_args, expected_hash, extract, extracted, find_archive, gh_args,
    hash_check, hash_command, listing_of, printed_hash, read_checksum, sha256_command, sha256_hex, single_subdir,
    subdir_of, unpack_command, unpack_error, verify_checksum, Check, CheckModel, CommandLine, CommandModel, Listing,
    ListingModel,
};
use crate::output::{ended, succeeded, success, Exit, ExitModel, OutputModel, ProcessOutput};
use crate::text::{cat2, cat4, cat5, decimal, decimal_text, same_but_case, text_of, verdict};
use crate::toolchain::{platform, platform_of};
use crate::version::{cache_key_of, SpecModel, VersionSpec};

verus! {

/// Where a download takes place.
#[derive(Debug)]
pub struct Places {
    /// The directory that the release is downloaded into.
    pub tmp: String,
    /// The directory inside it that the archive is extracted into.
    pub staging: String,
    /// The directory of the install cache that the release is to be in.
    pub prefix: String,
    /// The directory that holds it, where there is one.
    pub parent: Option<String>,
}

/// Where a download takes place.
#[verifier::ext_equal]
pub struct PlacesModel {
    pub tmp: Seq<char>,
    pub staging: Seq<char>,
    pub prefix: Seq<char>,
    pub parent: Option<Seq<char>>,
}

impl View for Places {
    type V = PlacesModel;

    open spec fn view(&self) -> PlacesModel {
        PlacesModel {
            tmp: self.tmp@,
            staging: self.staging@,
            prefix: self.prefix@,
            parent: text_of(self.parent),
        }
    }
}

/// Why a release was not installed.
#[derive(Debug)]
pub enum DownloadError {
    /// The release was asked for, and was not handed out.
    Refused(String),
    /// The archive is not what its checksum says.
    Corrupt(String),
    /// Anything else.
    Failed(String),
}

/// Why a release was not installed.
pub enum DownloadErrorModel {
    Refused(Seq<char>),
    Corrupt(Seq<char>),
    Failed(Seq<char>),
}

impl View for DownloadError {
    type V = DownloadErrorModel;

    open spec fn view(&self) -> DownloadErrorModel {
        match *self {
            DownloadError::Refused(m) => DownloadErrorModel::Refused(m@),
            DownloadError::Corrupt(m) => DownloadErrorModel::Corrupt(m@),
            DownloadError::Failed(m) => DownloadErrorModel::Failed(m@),
        }
    }
}

/// What is awaited.
#[derive(Debug, Clone, Copy, PartialEq, Eq, Structural)]
pub enum DownloadStage {
    /// The directory to download into.
    Preparing,
    /// The end of the download.
    Fetching,
    /// The listing of what was downloaded.
    Finding,
    /// The checksum file.
    Checking,
    /// The output of a hashing tool: the first, or the second.
    Hashing { second: bool },
    /// The directory to extract into.
    Staging,
    /// The end of the extraction.
    Extracting,
    /// The listing of what was extracted.
    Promoting,
    /// The directory that holds the install.
    Sheltering,
    /// The move into place.
    Installing,
    /// The removal of what was downloaded.
    Cleaning,
    /// Nothing: it is over.
    Over,
}

/// What has happened.
#[derive(Debug)]
pub enum DownloadEvent {
    /// A directory was made, or a directory was moved; or not.
    Made(Result<(), String>),
    /// A program was run to its end; an error if it could not be spawned.
    Ran(Result<Exit, String>),
    /// A directory was listed.
    Listed(Listing),
    /// The checksum file was read; none if it could not be.
    Checksum(Option<String>),
    /// A hashing tool was run; none if it could not be spawned.
    Hashed(Option<ProcessOutput>),
    /// A directory was removed, or could not be.
    Removed,
}

/// What has happened.
pub enum DownloadEventModel {
    Made(Option<Seq<char>>),
    Ran(Result<ExitModel, Seq<char>>),
    Listed(ListingModel),
    Checksum(Option<Seq<char>>),
    Hashed(Option<OutputModel>),
    Removed,
}

impl View for DownloadEvent {
    type V = DownloadEventModel;

    open spec fn view(&self) -> DownloadEventModel {
        match *self {
            DownloadEvent::Made(r) => DownloadEventModel::Made(verdict(r)),
            DownloadEvent::Ran(r) => DownloadEventModel::Ran(ended(r)),
            DownloadEvent::Listed(l) => DownloadEventModel::Listed(listing_of(l)),
            DownloadEvent::Checksum(c) => DownloadEventModel::Checksum(text_of(c)),
            DownloadEvent::Hashed(o) => DownloadEventModel::Hashed(output_of(o)),
            DownloadEvent::Removed => DownloadEventModel::Removed,
        }
    }
}

/// What a hashing tool showed, where it was run.
pub open spec fn output_of(o: Option<ProcessOutput>) -> Option<OutputModel> {
    match o {
        Some(out) => Some(out@),
        None => None,
    }
}

/// What is to be done next.
#[derive(Debug)]
pub enum DownloadAction {
    /// Make a directory; one that is to be fresh is removed before.
    MakeDir { dir: String, fresh: bool },
    /// Run a program to its end.
    Run(CommandLine),
    /// List a directory.
    List { dir: String },
    /// Read the checksum file.
    ReadChecksum { file: String },
    /// Run a hashing tool for its output.
    Hash(CommandLine),
    /// Remove the directory `to`, and move `from` there.
    Install { from: String, to: String },
    /// Remove a directory, if that can be done.
    Remove { dir: String },
    /// Nothing: the release is installed, or is not.
    Done(Result<(), DownloadError>),
}

/// What is to be done next.
pub enum DownloadActionModel {
    MakeDir { dir: Seq<char>, fresh: bool },
    Run(CommandModel),
    List { dir: Seq<char> },
    ReadChecksum { file: Seq<char> },
    Hash(CommandModel),
    Install { from: Seq<char>, to: Seq<char> },
    Remove { dir: Seq<char> },
    Done(Option<DownloadErrorModel>),
}

impl View for DownloadAction {
    type V = DownloadActionModel;

    open spec fn view(&self) -> DownloadActionModel {
        match *self {
            DownloadAction::MakeDir { dir, fresh } => DownloadActionModel::MakeDir { dir: dir@, fresh },
            DownloadAction::Run(c) => DownloadActionModel::Run(c@),
            DownloadAction::List { dir } => DownloadActionModel::List { dir: dir@ },
            DownloadAction::ReadChecksum { file } => DownloadActionModel::ReadChecksum { file: file@ },
            DownloadAction::Hash(c) => DownloadActionModel::Hash(c@),
            DownloadAction::Install { from, to } => DownloadActionModel::Install { from: from@, to: to@ },
            DownloadAction::Remove { dir } => DownloadActionModel::Remove { dir: dir@ },
            DownloadAction::Done(r) => DownloadActionModel::Done(
                match r {
                    Ok(_) => None,
                    Err(e) => Some(e@),
                },
            ),
        }
    }
}

/// What is to be done next, and what the user is to be warned of before.
#[derive(Debug)]
pub struct DownloadNext {
    /// What the user is to be warned of.
    pub warning: Option<String>,
    /// What is to be done.
    pub action: DownloadAction,
}

/// A download.
#[derive(Debug)]
pub struct Download {
    spec: VersionSpec,
    platform: &'static str,
    ext: &'static str,
    places: Places,
    archive: String,
    expected: String,
    root: String,
    stage: DownloadStage,
}

// ── Model ───────────────────────────────────────────────────────────────────

/// The state of a download: what is awaited, and what was found so far.
#[verifier::ext_equal]
pub struct DownloadState {
    pub spec: SpecModel,
    pub platform: Seq<char>,
    pub ext: Seq<char>,
    pub places: PlacesModel,
    pub archive: Seq<char>,
    pub expected: Seq<char>,
    pub root: Seq<char>,
    pub stage: DownloadStage,
}

impl View for Download {
    type V = DownloadState;

    closed spec fn view(&self) -> DownloadState {
        DownloadState {
            spec: self.spec@,
            platform: self.platform@,
            ext: self.ext@,
            places: self.places@,
            archive: self.archive@,
            expected: self.expected@,
            root: self.root@,
            stage: self.stage,
        }
    }
}

/// A step of a download: the state behind it, what the user is to be warned of,
/// and what is to be done.
pub struct DownloadStep {
    pub state: DownloadState,
    pub warning: Option<Seq<char>>,
    pub action: DownloadActionModel,
}

/// Whether `e` is what `stage` awaits.
pub open spec fn download_awaits(stage: DownloadStage, e: DownloadEventModel) -> bool {
    match stage {
        DownloadStage::Preparing => e is Made,
        DownloadStage::Fetching => e is Ran,
        DownloadStage::Finding => e is Listed,
        DownloadStage::Checking => e is Checksum,
        DownloadStage::Hashing { second: _ } => e is Hashed,
        DownloadStage::Staging => e is Made,
        DownloadStage::Extracting => e is Ran,
        DownloadStage::Promoting => e is Listed,
        DownloadStage::Sheltering => e is Made,
        DownloadStage::Installing => e is Made,
        DownloadStage::Cleaning => e is Removed,
        DownloadStage::Over => false,
    }
}

/// It is over.
pub open spec fn download_ends(st: DownloadState, error: Option<DownloadErrorModel>) -> DownloadStep {
    DownloadStep {
        state: DownloadState { stage: DownloadStage::Over, ..st },
        warning: None,
        action: DownloadActionModel::Done(error),
    }
}

/// It is over with a message.
pub open spec fn download_fails(st: DownloadState, message: Seq<char>) -> DownloadStep {
    download_ends(st, Some(DownloadErrorModel::Failed(message)))
}

/// It goes on.
pub open spec fn download_goes(st: DownloadState, stage: DownloadStage, action: DownloadActionModel) -> DownloadStep {
    DownloadStep { state: DownloadState { stage, ..st }, warning: None, action }
}

/// How it goes on with what a checksum says. Nothing is extracted from an
/// archive that is not what its checksum says.
pub open spec fn after_check(st: DownloadState, check: CheckModel) -> DownloadStep {
    match check {
        CheckModel::Mismatch(m) => download_ends(st, Some(DownloadErrorModel::Corrupt(m))),
        CheckModel::Intact => download_goes(
            st,
            DownloadStage::Staging,
            DownloadActionModel::MakeDir { dir: st.places.staging, fresh: false },
        ),
        CheckModel::Unverified(w) => DownloadStep {
            warning: w,
            ..download_goes(
                st,
                DownloadStage::Staging,
                DownloadActionModel::MakeDir { dir: st.places.staging, fresh: false },
            )
        },
    }
}

/// How it goes on once the directory that holds the install is there.
pub open spec fn moves(st: DownloadState) -> DownloadStep {
    download_goes(
        st,
        DownloadStage::Installing,
        DownloadActionModel::Install { from: st.root, to: st.places.prefix },
    )
}

/// The message of a directory that could not be made.
pub open spec fn mkdir_error(dir: Seq<char>, e: Seq<char>) -> Seq<char> {
    "mkdir "@ + dir + ": "@ + e
}

/// How a download goes on when a directory was made, or was not.
pub open spec fn after_made(st: DownloadState, error: Option<Seq<char>>) -> DownloadStep {
    match (st.stage, error) {
        (DownloadStage::Preparing, Some(e)) => download_fails(st, mkdir_error(st.places.tmp, e)),
        (DownloadStage::Preparing, None) => download_goes(
            st,
            DownloadStage::Fetching,
            DownloadActionModel::Run(
                CommandModel {
                    program: "gh"@,
                    args: download_args(st.spec, asset_pattern(st.platform, st.ext), st.places.tmp),
                },
            ),
        ),
        (DownloadStage::Staging, Some(e)) => download_fails(st, mkdir_error(st.places.staging, e)),
        (DownloadStage::Staging, None) => match unpack_command(st.archive, st.places.staging, st.ext) {
            Ok(c) => download_goes(st, DownloadStage::Extracting, DownloadActionModel::Run(c)),
            Err(m) => download_fails(st, m),
        },
        (DownloadStage::Sheltering, Some(e)) => download_fails(
            st,
            mkdir_error(
                match st.places.parent {
                    Some(p) => p,
                    None => ""@,
                },
                e,
            ),
        ),
        (DownloadStage::Sheltering, None) => moves(st),
        (_, Some(e)) => download_fails(
            st,
            "install "@ + st.root + " -> "@ + st.places.prefix + (": "@ + e),
        ),
        (_, None) => download_goes(
            st,
            DownloadStage::Cleaning,
            DownloadActionModel::Remove { dir: st.places.tmp },
        ),
    }
}

/// How a download goes on when `gh` was run.
pub open spec fn after_fetch(st: DownloadState, exit: Result<ExitModel, Seq<char>>) -> DownloadStep {
    match exit {
        Err(e) => download_fails(
            st,
            "failed to spawn `gh release download` (is `gh` installed?): "@ + e,
        ),
        Ok(x) => if success(x.code) {
            download_goes(st, DownloadStage::Finding, DownloadActionModel::List { dir: st.places.tmp })
        } else {
            download_ends(
                st,
                Some(
                    DownloadErrorModel::Refused(
                        "`gh release download` for "@ + cache_key_of(st.spec) + " failed ("@ + x.status + ")"@,
                    ),
                ),
            )
        },
    }
}

/// How a download goes on.
pub open spec fn download_next(st: DownloadState, e: DownloadEventModel) -> DownloadStep {
    match e {
        DownloadEventModel::Made(error) => after_made(st, error),
        DownloadEventModel::Ran(exit) => if st.stage is Fetching {
            after_fetch(st, exit)
        } else {
            match unpack_error(st.archive, exit) {
                Some(m) => download_fails(st, m),
                None => download_goes(
                    st,
                    DownloadStage::Promoting,
                    DownloadActionModel::List { dir: st.places.staging },
                ),
            }
        },
        DownloadEventModel::Listed(listing) => if st.stage is Finding {
            match archive_of(st.places.tmp, st.ext, listing) {
                Err(m) => download_fails(st, m),
                Ok(archive) => download_goes(
                    DownloadState { archive, ..st },
                    DownloadStage::Checking,
                    DownloadActionModel::ReadChecksum { file: archive + ".sha256"@ },
                ),
            }
        } else {
            match subdir_of(st.places.staging, listing) {
                Err(m) => download_fails(st, m),
                Ok(root) => match st.places.parent {
                    Some(p) => download_goes(
                        DownloadState { root, ..st },
                        DownloadStage::Sheltering,
                        DownloadActionModel::MakeDir { dir: p, fresh: false },
                    ),
                    None => moves(DownloadState { root, ..st }),
                },
            }
        },
        DownloadEventModel::Checksum(contents) => match expected_hash(st.archive, contents) {
            Ok(expected) => download_goes(
                DownloadState { expected, ..st },
                DownloadStage::Hashing { second: false },
                DownloadActionModel::Hash(hash_command(st.archive, false)),
            ),
            Err(check) => after_check(st, check),
        },
        DownloadEventModel::Hashed(output) => match (st.stage, printed_hash(output)) {
            (DownloadStage::Hashing { second: false }, None) => download_goes(
                st,
                DownloadStage::Hashing { second: true },
                DownloadActionModel::Hash(hash_command(st.archive, true)),
            ),
            (_, hash) => after_check(st, hash_check(st.archive, st.expected, hash)),
        },
        DownloadEventModel::Removed => download_ends(st, None),
    }
}

/// How a download begins: not at all where there are no releases for the
/// platform.
pub open spec fn download_begins(
    spec: SpecModel,
    os: Seq<char>,
    arch: Seq<char>,
    places: PlacesModel,
) -> DownloadStep {
    let st = DownloadState {
        spec,
        platform: ""@,
        ext: ""@,
        places,
        archive: ""@,
        expected: ""@,
        root: ""@,
        stage: DownloadStage::Over,
    };
    match platform_of(os, arch) {
        None => download_fails(st, "unsupported platform: "@ + os + "-"@ + arch),
        Some((plat, ext)) => download_goes(
            DownloadState { platform: plat, ext, ..st },
            DownloadStage::Preparing,
            DownloadActionModel::MakeDir { dir: places.tmp, fresh: true },
        ),
    }
}

// ── Driver ──────────────────────────────────────────────────────────────────

/// The name of the directory to download a release into.
pub fn download_dir(spec: &VersionSpec, pid: u32) -> (r: String)
    ensures
        r@ == "dl-"@ + cache_key_of(spec@) + "-"@ + decimal(pid as nat),
{
    let key = spec.cache_key();
    let p = decimal_text(pid as u64);
    cat4("dl-", key.as_str(), "-", p.as_str())
}

/// Download a release and extract it into the install cache. The archive is
/// extracted into a staging directory and moved into place at the end, so that
/// a failed extraction never leaves a half-populated cache entry.
pub fn download_and_extract(spec: &VersionSpec, os: &str, arch: &str, places: Places) -> (r: (Download, DownloadNext))
    ensures
        ({
            let step = download_begins(spec@, os@, arch@, places@);
            &&& r.0@ == step.state
            &&& text_of(r.1.warning) == step.warning
            &&& r.1.action@ == step.action
        }),
{
    let tmp = places.tmp.clone();
    let mut d = Download {
        spec: spec.clone(),
        platform: "",
        ext: "",
        places,
        archive: "".to_owned(),
        expected: "".to_owned(),
        root: "".to_owned(),
        stage: DownloadStage::Over,
    };
    match platform(os, arch) {
        Err(e) => {
            let next = d.fail(e);
            (d, next)
        },
        Ok((plat, ext)) => {
            d.platform = plat;
            d.ext = ext;
            d.stage = DownloadStage::Preparing;
            (d, DownloadNext { warning: None, action: DownloadAction::MakeDir { dir: tmp, fresh: true } })
        },
    }
}

/// The message of a directory that could not be made.
fn mkdir_failed(dir: &str, e: &str) -> (r: String)
    ensures
        r@ == mkdir_error(dir@, e@),
{
    cat4("mkdir ", dir, ": ", e)
}

impl Download {
    /// Takes what has happened, and says what is to be done next.
    pub fn next(&mut self, event: DownloadEvent) -> (r: DownloadNext)
        requires
            download_awaits(old(self)@.stage, event@),
        ensures
            ({
                let step = download_next(old(self)@, event@);
                &&& final(self)@ == step.state
                &&& text_of(r.warning) == step.warning
                &&& r.action@ == step.action
            }),
    {
        match event {
            DownloadEvent::Made(r) => self.made(r),
            DownloadEvent::Ran(r) => match self.stage {
                DownloadStage::Fetching => self.fetched(r),
                _ => match extracted(self.archive.as_str(), r) {
                    Err(m) => self.fail(m),
                    Ok(_) => {
                        self.stage = DownloadStage::Promoting;
                        let dir = self.places.staging.clone();
                        DownloadNext { warning: None, action: DownloadAction::List { dir } }
                    },
                },
            },
            DownloadEvent::Listed(l) => match self.stage {
                DownloadStage::Finding => match find_archive(self.places.tmp.as_str(), self.ext, l) {
                    Err(m) => self.fail(m),
                    Ok(archive) => {
                        let file = cat2(archive.as_str(), ".sha256");
                        self.archive = archive;
                        self.stage = DownloadStage::Checking;
                        DownloadNext { warning: None, action: DownloadAction::ReadChecksum { file } }
                    },
                },
                _ => match single_subdir(self.places.staging.as_str(), l) {
                    Err(m) => self.fail(m),
                    Ok(root) => {
                        self.root = root;
                        match self.places.parent.clone() {
                            Some(dir) => {
                                self.stage = DownloadStage::Sheltering;
                                DownloadNext {
                                    warning: None,
                                    action: DownloadAction::MakeDir { dir, fresh: false },
                                }
                            },
                            None => self.move_in(),
                        }
                    },
                },
            },
            DownloadEvent::Checksum(c) => match read_checksum(self.archive.as_str(), c) {
                Ok(expected) => {
                    self.expected = expected;
                    self.stage = DownloadStage::Hashing { second: false };
                    let command = sha256_command(self.archive.as_str(), false);
                    DownloadNext { warning: None, action: DownloadAction::Hash(command) }
                },
                Err(check) => self.checked(check),
            },
            DownloadEvent::Hashed(o) => {
                let hash = sha256_hex(o);
                let first = match self.stage {
                    DownloadStage::Hashing { second } => !second,
                    _ => false,
                };
                if first && hash.is_none() {
                    self.stage = DownloadStage::Hashing { second: true };
                    let command = sha256_command(self.archive.as_str(), true);
                    DownloadNext { warning: None, action: DownloadAction::Hash(command) }
                } else {
                    let check = verify_checksum(self.archive.as_str(), self.expected.as_str(), hash);
                    self.checked(check)
                }
            },
            DownloadEvent::Removed => {
                self.stage = DownloadStage::Over;
                DownloadNext { warning: None, action: DownloadAction::Done(Ok(())) }
            },
        }
    }

    /// Ends the download with a message.
    fn fail(&mut self, message: String) -> (r: DownloadNext)
        ensures
            ({
                let step = download_fails(old(self)@, message@);
                &&& final(self)@ == step.state
                &&& text_of(r.warning) == step.warning
                &&& r.action@ == step.action
            }),
    {
        self.stage = DownloadStage::Over;
        DownloadNext { warning: None, action: DownloadAction::Done(Err(DownloadError::Failed(message))) }
    }

    /// Goes on when a directory was made, or was not.
    fn made(&mut self, result: Result<(), String>) -> (r: DownloadNext)
        requires
            download_awaits(old(self)@.stage, DownloadEventModel::Made(verdict(result))),
        ensures
            ({
                let step = after_made(old(self)@, verdict(result));
                &&& final(self)@ == step.state
                &&& text_of(r.warning) == step.warning
                &&& r.action@ == step.action
            }),
    {
        match self.stage {
            DownloadStage::Preparing => match result {
                Err(e) => {
                    let m = mkdir_failed(self.places.tmp.as_str(), e.as_str());
                    self.fail(m)
                },
                Ok(_) => {
                    self.stage = DownloadStage::Fetching;
                    let glob = asset_glob(self.platform, self.ext);
                    let args = gh_args(&self.spec, glob.as_str(), self.places.tmp.as_str());
                    let command = CommandLine { program: "gh".to_owned(), args };
                    DownloadNext { warning: None, action: DownloadAction::Run(command) }
                },
            },
            DownloadStage::Staging => match result {
                Err(e) => {
                    let m = mkdir_failed(self.places.staging.as_str(), e.as_str());
                    self.fail(m)
                },
                Ok(_) => match extract(self.archive.as_str(), self.places.staging.as_str(), self.ext) {
                    Err(m) => self.fail(m),
                    Ok(command) => {
                        self.stage = DownloadStage::Extracting;
                        DownloadNext { warning: None, action: DownloadAction::Run(command) }
                    },
                },
            },
            DownloadStage::Sheltering => match result {
                Err(e) => {
                    let dir: &str = match &self.places.parent {
                        Some(p) => p.as_str(),
                        None => "",
                    };
                    let m = mkdir_failed(dir, e.as_str());
                    self.fail(m)
                },
                Ok(_) => self.move_in(),
            },
            _ => match result {
                Err(e) => {
                    let tail = cat2(": ", e.as_str());
                    let m = cat5(
                        "install ",
                        self.root.as_str(),
                        " -> ",
                        self.places.prefix.as_str(),
                        tail.as_str(),
                    );
                    self.fail(m)
                },
                Ok(_) => {
                    self.stage = DownloadStage::Cleaning;
                    let dir = self.places.tmp.clone();
                    DownloadNext { warning: None, action: DownloadAction::Remove { dir } }
                },
            },
        }
    }

    /// Goes on when `gh` was run.
    fn fetched(&mut self, exit: Result<Exit, String>) -> (r: DownloadNext)
        ensures
            ({
                let step = after_fetch(old(self)@, ended(exit));
                &&& final(self)@ == step.state
                &&& text_of(r.warning) == step.warning
                &&& r.action@ == step.action
            }),
    {
        match exit {
            Err(e) => {
                let m = cat2(
                    "failed to spawn `gh release download` (is `gh` installed?): ",
                    e.as_str(),
                );
                self.fail(m)
            },
            Ok(x) => {
                if succeeded(x.code) {
                    self.stage = DownloadStage::Finding;
                    let dir = self.places.tmp.clone();
                    DownloadNext { warning: None, action: DownloadAction::List { dir } }
                } else {
                    self.stage = DownloadStage::Over;
                    let key = self.spec.cache_key();
                    let m = cat5(
                        "`gh release download` for ",
                        key.as_str(),
                        " failed (",
                        x.status.as_str(),
                        ")",
                    );
                    DownloadNext {
                        warning: None,
                        action: DownloadAction::Done(Err(DownloadError::Refused(m))),
                    }
                }
            },
        }
    }

    /// Goes on with what a checksum says.
    fn checked(&mut self, check: Check) -> (r: DownloadNext)
        ensures
            ({
                let step = after_check(old(self)@, check@);
                &&& final(self)@ == step.state
                &&& text_of(r.warning) == step.warning
                &&& r.action@ == step.action
            }),
    {
        let dir = self.places.staging.clone();
        match check {
            Check::Mismatch(m) => {
                self.stage = DownloadStage::Over;
                DownloadNext { warning: None, action: DownloadAction::Done(Err(DownloadError::Corrupt(m))) }
            },
            Check::Intact => {
                self.stage = DownloadStage::Staging;
                DownloadNext { warning: None, action: DownloadAction::MakeDir { dir, fresh: false } }
            },
            Check::Unverified(warning) => {
                self.stage = DownloadStage::Staging;
                DownloadNext { warning, action: DownloadAction::MakeDir { dir, fresh: false } }
            },
        }
    }

    /// Moves what was extracted into place.
    fn move_in(&mut self) -> (r: DownloadNext)
        ensures
            ({
                let step = moves(old(self)@);
                &&& final(self)@ == step.state
                &&& text_of(r.warning) == step.warning
                &&& r.action@ == step.action
            }),
    {
        self.stage = DownloadStage::Installing;
        let from = self.root.clone();
        let to = self.places.prefix.clone();
        DownloadNext { warning: None, action: DownloadAction::Install { from, to } }
    }
}

// ── Laws ────────────────────────────────────────────────────────────────────

/// The install cache is touched only by the move at the end, which comes behind
/// an extraction that succeeded and left a single directory: a failed
/// extraction leaves the cache as it was.
pub proof fn law_cache_is_replaced_whole(st: DownloadState, e: DownloadEventModel)
    requires
        download_awaits(st.stage, e),
    ensures
        ({
            let step = download_next(st, e);
            &&& step.action is Install ==> st.stage is Promoting || st.stage is Sheltering
            &&& step.state.stage is Sheltering ==> st.stage is Promoting
            &&& st.stage is Promoting && step.action !is Done ==> (e matches DownloadEventModel::Listed(l)
                ==> subdir_of(st.places.staging, l) == Ok::<Seq<char>, Seq<char>>(step.state.root))
            &&& step.state.stage is Promoting ==> st.stage is Extracting && (e matches DownloadEventModel::Ran(x)
                ==> unpack_error(st.archive, x) is None)
        }),
{
}

/// A download that succeeds has moved the release into place, and behind that
/// has removed what it had downloaded.
pub proof fn law_success_cleans_up(st: DownloadState, e: DownloadEventModel)
    requires
        download_awaits(st.stage, e),
    ensures
        ({
            let step = download_next(st, e);
            &&& step.action == DownloadActionModel::Done(None) <==> st.stage is Cleaning
            &&& step.state.stage is Cleaning ==> {
                &&& st.stage is Installing
                &&& e == DownloadEventModel::Made(None)
                &&& step.action == (DownloadActionModel::Remove { dir: st.places.tmp })
            }
        }),
{
}

/// An archive whose hash is not the one in its checksum file is never
/// extracted.
pub proof fn law_corrupt_is_rejected(st: DownloadState, output: Option<OutputModel>, hash: Seq<char>)
    requires
        st.stage is Hashing,
        printed_hash(output) == Some(hash),
        !same_but_case(hash, st.expected),
    ensures
        download_next(st, DownloadEventModel::Hashed(output)).action matches DownloadActionModel::Done(
            Some(DownloadErrorModel::Corrupt(_)),
        ),
{
}

/// A download always ends: every step either ends it or brings it further on.
pub proof fn law_download_advances(st: DownloadState, e: DownloadEventModel)
    requires
        download_awaits(st.stage, e),
    ensures
        stage_rank(st.stage) < stage_rank(download_next(st, e).state.stage) <= stage_rank(DownloadStage::Over),
{
}

/// How far on a stage is.
pub open spec fn stage_rank(stage: DownloadStage) -> int {
    match stage {
        DownloadStage::Preparing => 0,
        DownloadStage::Fetching => 1,
        DownloadStage::Finding => 2,
        DownloadStage::Checking => 3,
        DownloadStage::Hashing { second } => if second {
            5
        } else {
            4
        },
        DownloadStage::Staging => 6,
        DownloadStage::Extracting => 7,
        DownloadStage::Promoting => 8,
        DownloadStage::Sheltering => 9,
        DownloadStage::Installing => 10,
        DownloadStage::Cleaning => 11,
        DownloadStage::Over => 12,
    }
}

} // verus!
