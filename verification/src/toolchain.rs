//! Installing a released toolchain: the decisions, from what was found to what
//! is to be done next.

use vstd::prelude::*;

use crate::bytes::lossy;
use crate::output::{spawned, succeeded, success, OutputModel, ProcessOutput};
use crate::paths::{absolute, law_resolved_is_absolute, resolve, resolved};
use crate::text::{cat2, cat3, cat4, same, trim, trimmed};
use crate::version::{SpecModel, VersionSpec};

verus! {

/// An installed Beamtalk toolchain ready to drive scenarios.
#[derive(Debug)]
pub struct Toolchain {
    /// Absolute path to the `beamtalk` executable.
    pub bin: String,
    /// Output of `beamtalk --version` (trimmed).
    pub version: String,
}

/// What is known of a toolchain.
#[verifier::ext_equal]
pub struct ToolchainModel {
    pub bin: Seq<char>,
    pub version: Seq<char>,
}

impl View for Toolchain {
    type V = ToolchainModel;

    open spec fn view(&self) -> ToolchainModel {
        ToolchainModel { bin: self.bin@, version: self.version@ }
    }
}

impl Clone for Toolchain {
    fn clone(&self) -> (r: Self)
        ensures
            r@ == self@,
    {
        Toolchain { bin: self.bin.clone(), version: self.version.clone() }
    }
}

/// Why a toolchain was not installed.
#[derive(Debug)]
pub enum InstallError {
    /// The release was asked for, and was not handed out.
    Refused(String),
    /// Anything else.
    Failed(String),
}

/// Why a toolchain was not installed.
#[verifier::ext_equal]
pub enum InstallErrorModel {
    Refused(Seq<char>),
    Failed(Seq<char>),
}

impl View for InstallError {
    type V = InstallErrorModel;

    open spec fn view(&self) -> InstallErrorModel {
        match *self {
            InstallError::Refused(e) => InstallErrorModel::Refused(e@),
            InstallError::Failed(e) => InstallErrorModel::Failed(e@),
        }
    }
}

/// The message of an error.
pub open spec fn error_text(e: InstallErrorModel) -> Seq<char> {
    match e {
        InstallErrorModel::Refused(t) => t,
        InstallErrorModel::Failed(t) => t,
    }
}

impl InstallError {
    /// The message of the error.
    pub fn message(&self) -> (r: &str)
        ensures
            r@ == error_text(self@),
    {
        match self {
            InstallError::Refused(e) => e.as_str(),
            InstallError::Failed(e) => e.as_str(),
        }
    }
}

/// An executable, and whether there is one.
#[derive(Debug)]
pub struct Candidate {
    /// Where the executable is to be.
    pub bin: String,
    /// The working directory, which a relative `bin` starts from.
    pub dir: String,
    /// Whether these are paths of Windows.
    pub windows: bool,
    /// Whether the executable is there.
    pub exists: bool,
}

/// An executable, and whether there is one.
#[verifier::ext_equal]
pub struct CandidateModel {
    pub bin: Seq<char>,
    pub dir: Seq<char>,
    pub windows: bool,
    pub exists: bool,
}

/// The executable, wherever it is looked for from.
pub open spec fn located(c: CandidateModel) -> Seq<char> {
    resolved(c.dir, c.bin, c.windows)
}

/// The executable, wherever it is looked for from.
fn locate(c: &Candidate) -> (r: String)
    ensures
        r@ == located(c@),
{
    resolve(c.dir.as_str(), c.bin.as_str(), c.windows)
}

/// How far an installation has come.
#[derive(Debug)]
pub enum InstallEvent {
    /// Nothing was done. `given` is the binary that `BEAMTALK_UAT_BIN` names,
    /// where it is set, and `cached` the one in the install cache.
    Begin { given: Option<Candidate>, cached: Candidate },
    /// The release was downloaded and extracted, or was not. `cached` is the
    /// binary in the install cache by now.
    Downloaded { result: Result<(), InstallError>, cached: Candidate },
    /// `bin --version` was run; an error if it could not be spawned.
    Queried { bin: String, output: Result<ProcessOutput, String> },
}

/// How far an installation has come.
pub enum InstallEventModel {
    Begin { given: Option<CandidateModel>, cached: CandidateModel },
    Downloaded { result: Option<InstallErrorModel>, cached: CandidateModel },
    Queried { bin: Seq<char>, output: Result<OutputModel, Seq<char>> },
}

impl View for Candidate {
    type V = CandidateModel;

    open spec fn view(&self) -> CandidateModel {
        CandidateModel { bin: self.bin@, dir: self.dir@, windows: self.windows, exists: self.exists }
    }
}

impl View for InstallEvent {
    type V = InstallEventModel;

    open spec fn view(&self) -> InstallEventModel {
        match *self {
            InstallEvent::Begin { given, cached } => InstallEventModel::Begin {
                given: match given {
                    Some(c) => Some(c@),
                    None => None,
                },
                cached: cached@,
            },
            InstallEvent::Downloaded { result, cached } => InstallEventModel::Downloaded {
                result: match result {
                    Ok(_) => None,
                    Err(e) => Some(e@),
                },
                cached: cached@,
            },
            InstallEvent::Queried { bin, output } => InstallEventModel::Queried {
                bin: bin@,
                output: spawned(output),
            },
        }
    }
}

/// What is to be done next.
#[derive(Debug)]
pub enum InstallNext {
    /// Download the release and extract it into the install cache.
    Download,
    /// Run `bin --version`.
    Query { bin: String },
    /// Nothing: the toolchain is installed, or is not.
    Done(Result<Toolchain, InstallError>),
}

/// What is to be done next.
pub enum InstallNextModel {
    Download,
    Query { bin: Seq<char> },
    Done(Result<ToolchainModel, InstallErrorModel>),
}

/// The outcome of an installation.
pub open spec fn installed(r: Result<Toolchain, InstallError>) -> Result<ToolchainModel, InstallErrorModel> {
    match r {
        Ok(tc) => Ok(tc@),
        Err(e) => Err(e@),
    }
}

impl View for InstallNext {
    type V = InstallNextModel;

    open spec fn view(&self) -> InstallNextModel {
        match *self {
            InstallNext::Download => InstallNextModel::Download,
            InstallNext::Query { bin } => InstallNextModel::Query { bin: bin@ },
            InstallNext::Done(r) => InstallNextModel::Done(installed(r)),
        }
    }
}

// ── Model ───────────────────────────────────────────────────────────────────

/// The installation has failed.
pub open spec fn install_fails(message: Seq<char>) -> InstallNextModel {
    InstallNextModel::Done(Err(InstallErrorModel::Failed(message)))
}

/// The toolchain that a version query shows, or what is wrong with it.
pub open spec fn queried(bin: Seq<char>, output: Result<OutputModel, Seq<char>>) -> Result<Seq<char>, Seq<char>> {
    match output {
        Err(e) => Err("failed to run `"@ + bin + " --version`: "@ + e),
        Ok(out) => if success(out.code) {
            Ok(trimmed(out.stdout))
        } else {
            Err("`"@ + bin + " --version` exited with "@ + out.status)
        },
    }
}

/// Whether the release is to be downloaded. Latest, nightly and edge are rolling
/// targets: they are always downloaded again, so that no stale install is
/// tested. Exact versions are immutable and safe to reuse.
pub open spec fn downloads(spec: SpecModel, cached: bool) -> bool {
    spec is Exact ==> !cached
}

/// How an installation goes on.
pub open spec fn install_next(spec: SpecModel, e: InstallEventModel) -> InstallNextModel {
    match e {
        InstallEventModel::Begin { given: Some(c), cached: _ } => if c.exists {
            InstallNextModel::Query { bin: located(c) }
        } else {
            install_fails("BEAMTALK_UAT_BIN does not exist: "@ + c.bin)
        },
        InstallEventModel::Begin { given: None, cached } => if downloads(spec, cached.exists) {
            InstallNextModel::Download
        } else {
            InstallNextModel::Query { bin: located(cached) }
        },
        InstallEventModel::Downloaded { result: Some(e), cached: _ } => InstallNextModel::Done(Err(e)),
        InstallEventModel::Downloaded { result: None, cached } => if cached.exists {
            InstallNextModel::Query { bin: located(cached) }
        } else {
            install_fails(
                "toolchain install did not produce "@ + cached.bin + " — archive layout may have changed"@,
            )
        },
        InstallEventModel::Queried { bin, output } => match queried(bin, output) {
            Ok(version) => InstallNextModel::Done(Ok(ToolchainModel { bin, version })),
            Err(message) => install_fails(message),
        },
    }
}

/// Whether a spec means a pre-release that is published over and over.
pub open spec fn rolling_pre_release(spec: SpecModel) -> bool {
    spec is Nightly || spec is Edge
}

/// What is made of an installation: a toolchain, none where a rolling
/// pre-release is not handed out, or a failure.
pub open spec fn shared_outcome(spec: SpecModel, r: Result<ToolchainModel, InstallErrorModel>) -> Result<
    Option<ToolchainModel>,
    Seq<char>,
> {
    match r {
        Ok(tc) => Ok(Some(tc)),
        Err(e) => if e is Refused && rolling_pre_release(spec) {
            Ok(None)
        } else {
            Err("failed to install Beamtalk toolchain: "@ + error_text(e))
        },
    }
}

// ── Decisions ───────────────────────────────────────────────────────────────

/// The platform triple + archive extension for a runner, matching the naming of
/// the release assets.
pub fn platform(os: &str, arch: &str) -> (r: Result<(&'static str, &'static str), String>)
    ensures
        match platform_of(os@, arch@) {
            Some((p, x)) => r matches Ok(o) && o.0@ == p && o.1@ == x,
            None => r matches Err(e) && e@ == "unsupported platform: "@ + os@ + "-"@ + arch@,
        },
{
    if same(os, "linux") && same(arch, "x86_64") {
        return Ok(("linux-x86_64", "tar.gz"));
    }
    if same(os, "macos") && same(arch, "x86_64") {
        return Ok(("macos-x86_64", "tar.gz"));
    }
    if same(os, "macos") && same(arch, "aarch64") {
        return Ok(("macos-arm64", "tar.gz"));
    }
    if same(os, "windows") && same(arch, "x86_64") {
        return Ok(("windows-x86_64", "zip"));
    }
    Err(cat4("unsupported platform: ", os, "-", arch))
}

/// The platform triple + archive extension for a runner, where there are
/// releases for it.
pub open spec fn platform_of(os: Seq<char>, arch: Seq<char>) -> Option<(Seq<char>, Seq<char>)> {
    if os == "linux"@ && arch == "x86_64"@ {
        Some(("linux-x86_64"@, "tar.gz"@))
    } else if os == "macos"@ && arch == "x86_64"@ {
        Some(("macos-x86_64"@, "tar.gz"@))
    } else if os == "macos"@ && arch == "aarch64"@ {
        Some(("macos-arm64"@, "tar.gz"@))
    } else if os == "windows"@ && arch == "x86_64"@ {
        Some(("windows-x86_64"@, "zip"@))
    } else {
        None
    }
}

/// The name of the `beamtalk` executable.
pub fn bin_name(windows: bool) -> (r: &'static str)
    ensures
        r@ == (if windows {
            "beamtalk.exe"@
        } else {
            "beamtalk"@
        }),
{
    if windows {
        "beamtalk.exe"
    } else {
        "beamtalk"
    }
}

/// The version that `bin --version` reports.
pub fn query_version(bin: &str, output: Result<ProcessOutput, String>) -> (r: Result<String, String>)
    ensures
        match queried(bin@, spawned(output)) {
            Ok(v) => r matches Ok(s) && s@ == v,
            Err(m) => r matches Err(e) && e@ == m,
        },
{
    match output {
        Err(e) => Err(cat4("failed to run `", bin, " --version`: ", e.as_str())),
        Ok(out) => {
            let stdout = lossy(&out.stdout);
            version_verdict(bin, out.code, out.status.as_str(), stdout.as_str())
        },
    }
}

/// The version that `bin --version` reports, where it ended as given and wrote
/// `stdout`.
pub fn version_verdict(bin: &str, code: Option<i32>, status: &str, stdout: &str) -> (r: Result<String, String>)
    ensures
        if success(code) {
            r matches Ok(s) && s@ == trimmed(stdout@)
        } else {
            r matches Err(e) && e@ == "`"@ + bin@ + " --version` exited with "@ + status@
        },
{
    if succeeded(code) {
        Ok(trim(stdout))
    } else {
        Err(cat4("`", bin, " --version` exited with ", status))
    }
}

/// Install (or reuse a cached install of) the requested toolchain.
///
/// Honours `BEAMTALK_UAT_BIN` as an escape hatch: an already-installed binary
/// is used, under its absolute path. Otherwise the matching release is downloaded into the
/// install cache, where it is not already there and immutable.
pub fn install(spec: &VersionSpec, event: InstallEvent) -> (r: InstallNext)
    ensures
        r@ == install_next(spec@, event@),
{
    match event {
        InstallEvent::Begin { given, cached } => match given {
            Some(c) => {
                if c.exists {
                    InstallNext::Query { bin: locate(&c) }
                } else {
                    InstallNext::Done(
                        Err(InstallError::Failed(cat2("BEAMTALK_UAT_BIN does not exist: ", c.bin.as_str()))),
                    )
                }
            },
            None => {
                let should_download = match spec {
                    VersionSpec::Exact(_) => !cached.exists,
                    _ => true,
                };
                if should_download {
                    InstallNext::Download
                } else {
                    InstallNext::Query { bin: locate(&cached) }
                }
            },
        },
        InstallEvent::Downloaded { result, cached } => match result {
            Err(e) => InstallNext::Done(Err(e)),
            Ok(_) => {
                if cached.exists {
                    InstallNext::Query { bin: locate(&cached) }
                } else {
                    let message = cat3(
                        "toolchain install did not produce ",
                        cached.bin.as_str(),
                        " — archive layout may have changed",
                    );
                    InstallNext::Done(Err(InstallError::Failed(message)))
                }
            },
        },
        InstallEvent::Queried { bin, output } => match query_version(bin.as_str(), output) {
            Ok(version) => InstallNext::Done(Ok(Toolchain { bin, version })),
            Err(e) => InstallNext::Done(Err(InstallError::Failed(e))),
        },
    }
}

/// What is made of the installation of the toolchain that a run shares. A
/// rolling pre-release that is not published yet gives `None`, so that the run
/// is skipped; any other failure is one.
pub fn shared(spec: &VersionSpec, result: Result<Toolchain, InstallError>) -> (r: Result<Option<Toolchain>, String>)
    ensures
        match shared_outcome(spec@, installed(result)) {
            Ok(Some(tc)) => r matches Ok(Some(t)) && t@ == tc,
            Ok(None) => r matches Ok(None),
            Err(m) => r matches Err(e) && e@ == m,
        },
{
    match result {
        Ok(tc) => Ok(Some(tc)),
        Err(e) => {
            let refused = match e {
                InstallError::Refused(_) => true,
                InstallError::Failed(_) => false,
            };
            let rolling = match spec {
                VersionSpec::Nightly => true,
                VersionSpec::Edge => true,
                _ => false,
            };
            if refused && rolling {
                Ok(None)
            } else {
                Err(cat2("failed to install Beamtalk toolchain: ", e.message()))
            }
        },
    }
}

// ── Laws ────────────────────────────────────────────────────────────────────

/// A rolling release is never taken from the cache: unless a binary is given,
/// it is downloaded.
pub proof fn law_rolling_is_downloaded(spec: SpecModel, cached: CandidateModel)
    requires
        spec !is Exact,
    ensures
        install_next(spec, InstallEventModel::Begin { given: None, cached }) is Download,
{
}

/// An exact version that is in the cache is never downloaded again.
pub proof fn law_exact_is_reused(v: Seq<char>, cached: CandidateModel)
    requires
        cached.exists,
    ensures
        install_next(SpecModel::Exact(v), InstallEventModel::Begin { given: None, cached })
            == (InstallNextModel::Query { bin: located(cached) }),
{
}

/// A binary that is given is never replaced by a download.
pub proof fn law_given_skips_download(spec: SpecModel, given: CandidateModel, cached: CandidateModel)
    ensures
        install_next(spec, InstallEventModel::Begin { given: Some(given), cached }) !is Download,
{
}

/// The executable of a toolchain is asked for its version, and so installed,
/// under an absolute path: a command that runs in another directory finds it.
pub proof fn law_bin_is_absolute(spec: SpecModel, e: InstallEventModel, windows: bool)
    requires
        match e {
            InstallEventModel::Begin { given: Some(c), cached: _ } => c.windows == windows && absolute(c.dir, windows),
            InstallEventModel::Begin { given: None, cached } => cached.windows == windows && absolute(
                cached.dir,
                windows,
            ),
            InstallEventModel::Downloaded { result: _, cached } => cached.windows == windows && absolute(
                cached.dir,
                windows,
            ),
            InstallEventModel::Queried { bin, output: _ } => absolute(bin, windows),
        },
    ensures
        match install_next(spec, e) {
            InstallNextModel::Query { bin } => absolute(bin, windows),
            InstallNextModel::Done(Ok(tc)) => absolute(tc.bin, windows),
            _ => true,
        },
{
    match e {
        InstallEventModel::Begin { given: Some(c), cached: _ } => {
            law_resolved_is_absolute(c.dir, c.bin, windows);
        },
        InstallEventModel::Begin { given: None, cached } => {
            law_resolved_is_absolute(cached.dir, cached.bin, windows);
        },
        InstallEventModel::Downloaded { result: _, cached } => {
            law_resolved_is_absolute(cached.dir, cached.bin, windows);
        },
        _ => {},
    }
}

/// An installed toolchain is always one whose `--version` ran and succeeded.
pub proof fn law_installed_was_queried(spec: SpecModel, e: InstallEventModel, tc: ToolchainModel)
    requires
        install_next(spec, e) == InstallNextModel::Done(Ok(tc)),
    ensures
        match e {
            InstallEventModel::Queried { bin, output: Ok(out) } => {
                &&& bin == tc.bin
                &&& success(out.code)
                &&& tc.version == trimmed(out.stdout)
            },
            _ => false,
        },
{
}

/// A run is skipped if and only if a rolling pre-release was asked for and was
/// not handed out: no other failure goes by in silence.
pub proof fn law_skipped_only_when_refused(spec: SpecModel, r: Result<ToolchainModel, InstallErrorModel>)
    ensures
        shared_outcome(spec, r) == Ok::<Option<ToolchainModel>, Seq<char>>(None) <==> {
            &&& r matches Err(InstallErrorModel::Refused(_))
            &&& rolling_pre_release(spec)
        },
{
}

/// A binary that is given is asked for its version where there is one, wherever
/// it is, and is an error where there is none, whichever release is meant and
/// whatever is in the cache.
pub proof fn law_given_binary(spec: SpecModel, given: CandidateModel, cached: CandidateModel)
    ensures
        ({
            let next = install_next(spec, InstallEventModel::Begin { given: Some(given), cached });
            &&& given.exists ==> next == (InstallNextModel::Query { bin: resolved(given.dir, given.bin, given.windows) })
            &&& !given.exists ==> next == InstallNextModel::Done(
                Err(InstallErrorModel::Failed("BEAMTALK_UAT_BIN does not exist: "@ + given.bin)),
            )
        }),
{
}

/// Without a given binary a release is downloaded, unless it is an exact version
/// that is in the cache; and what is in the cache then is asked for its version.
pub proof fn law_cached_binary(spec: SpecModel, cached: CandidateModel)
    ensures
        ({
            let next = install_next(spec, InstallEventModel::Begin { given: None, cached });
            if spec is Exact && cached.exists {
                next == (InstallNextModel::Query { bin: resolved(cached.dir, cached.bin, cached.windows) })
            } else {
                next is Download
            }
        }),
{
}

/// Behind a download the binary is asked for its version, if the release was
/// installed and the binary is there; otherwise the installation has failed, with
/// the error of the download where there is one.
pub proof fn law_downloaded_binary(spec: SpecModel, error: InstallErrorModel, cached: CandidateModel)
    ensures
        install_next(spec, InstallEventModel::Downloaded { result: Some(error), cached }) == InstallNextModel::Done(
            Err(error),
        ),
        cached.exists ==> install_next(spec, InstallEventModel::Downloaded { result: None, cached }) == (
        InstallNextModel::Query { bin: resolved(cached.dir, cached.bin, cached.windows) }),
        !cached.exists ==> install_next(spec, InstallEventModel::Downloaded { result: None, cached })
            == InstallNextModel::Done(
            Err(
                InstallErrorModel::Failed(
                    "toolchain install did not produce "@ + cached.bin + " — archive layout may have changed"@,
                ),
            ),
        ),
{
}

/// A binary that was asked for its version is a toolchain if and only if it could
/// be run and exited with 0, and its version is what it wrote, trimmed.
pub proof fn law_queried_binary(spec: SpecModel, bin: Seq<char>, out: OutputModel, error: Seq<char>)
    ensures
        ({
            let ran = install_next(spec, InstallEventModel::Queried { bin, output: Ok(out) });
            let failed = install_next(spec, InstallEventModel::Queried { bin, output: Err(error) });
            &&& out.code == Some(0i32) ==> ran == InstallNextModel::Done(
                Ok(ToolchainModel { bin, version: trimmed(out.stdout) }),
            )
            &&& out.code != Some(0i32) ==> ran == InstallNextModel::Done(
                Err(InstallErrorModel::Failed("`"@ + bin + " --version` exited with "@ + out.status)),
            )
            &&& failed == InstallNextModel::Done(
                Err(InstallErrorModel::Failed("failed to run `"@ + bin + " --version`: "@ + error)),
            )
        }),
{
}

/// A run has the toolchain that was installed, and fails with what was wrong
/// where none was, unless it is skipped.
pub proof fn law_shared_toolchain(spec: SpecModel, tc: ToolchainModel, message: Seq<char>)
    ensures
        shared_outcome(spec, Ok(tc)) == Ok::<Option<ToolchainModel>, Seq<char>>(Some(tc)),
        shared_outcome(spec, Err(InstallErrorModel::Failed(message))) == Err::<Option<ToolchainModel>, Seq<char>>(
            "failed to install Beamtalk toolchain: "@ + message,
        ),
        shared_outcome(SpecModel::Nightly, Err(InstallErrorModel::Refused(message))) == Ok::<
            Option<ToolchainModel>,
            Seq<char>,
        >(None),
        shared_outcome(SpecModel::Edge, Err(InstallErrorModel::Refused(message))) == Ok::<
            Option<ToolchainModel>,
            Seq<char>,
        >(None),
        spec is Latest || spec is Exact ==> shared_outcome(spec, Err(InstallErrorModel::Refused(message))) == Err::<
            Option<ToolchainModel>,
            Seq<char>,
        >("failed to install Beamtalk toolchain: "@ + message),
{
}

} // verus!
