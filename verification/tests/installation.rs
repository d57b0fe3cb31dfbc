//! Installing a toolchain, and staging projects.

use beamtalk_uat::archive::{
    asset_glob, extract, extracted, find_archive, gh_args, read_checksum, sha256_command, sha256_hex, single_subdir,
    verify_checksum, Check, CommandLine, DirEntry,
};
use beamtalk_uat::copying::{plan_copy, EntryKind, ProjectEntry};
use beamtalk_uat::download::{
    download_and_extract, download_dir, Download, DownloadAction, DownloadError, DownloadEvent, DownloadNext, Places,
};
use beamtalk_uat::output::{Exit, ProcessOutput};
use beamtalk_uat::paths::{is_absolute, resolve};
use beamtalk_uat::staging::{is_left_out, staging_failed};
use beamtalk_uat::toolchain::{
    bin_name, platform, query_version, version_verdict, Candidate, InstallError, InstallEvent, InstallNext,
};
use beamtalk_uat::{install, shared, stage_project, StagedProject, Stagings, Toolchain, VersionSpec};

fn output(code: Option<i32>, stdout: &[u8]) -> ProcessOutput {
    ProcessOutput {
        code,
        status: format!("status {code:?}"),
        stdout: stdout.to_vec(),
        stderr: Vec::new(),
    }
}

fn candidate(bin: &str, exists: bool) -> Candidate {
    Candidate { bin: bin.to_string(), dir: "/work".to_string(), windows: false, exists }
}

fn begin(given: Option<Candidate>, cached: Candidate) -> InstallEvent {
    InstallEvent::Begin { given, cached }
}

fn exact() -> VersionSpec {
    VersionSpec::Exact("0.4.0".to_string())
}

fn failure(next: InstallNext) -> String {
    match next {
        InstallNext::Done(Err(e)) => e.message().to_string(),
        other => panic!("{other:?}"),
    }
}

#[test]
fn platforms() {
    assert_eq!(platform("linux", "x86_64"), Ok(("linux-x86_64", "tar.gz")));
    assert_eq!(platform("macos", "x86_64"), Ok(("macos-x86_64", "tar.gz")));
    assert_eq!(platform("macos", "aarch64"), Ok(("macos-arm64", "tar.gz")));
    assert_eq!(platform("windows", "x86_64"), Ok(("windows-x86_64", "zip")));
    assert_eq!(
        platform("linux", "aarch64"),
        Err("unsupported platform: linux-aarch64".to_string())
    );
    assert_eq!(bin_name(true), "beamtalk.exe");
    assert_eq!(bin_name(false), "beamtalk");
}

#[test]
fn a_given_binary_is_used_as_it_is() {
    let next = install(&VersionSpec::Latest, begin(Some(candidate("/b", true)), candidate("/c", false)));
    assert!(matches!(next, InstallNext::Query { bin } if bin == "/b"));
    let next = install(&VersionSpec::Latest, begin(Some(candidate("/b", false)), candidate("/c", true)));
    assert_eq!(failure(next), "BEAMTALK_UAT_BIN does not exist: /b");
}

#[test]
fn a_relative_binary_gets_its_absolute_path() {
    let next = install(&VersionSpec::Latest, begin(Some(candidate("bin/beamtalk", true)), candidate("/c", false)));
    assert!(matches!(next, InstallNext::Query { bin } if bin == "/work/bin/beamtalk"));
    let next = install(&exact(), begin(None, candidate("c/beamtalk", true)));
    assert!(matches!(next, InstallNext::Query { bin } if bin == "/work/c/beamtalk"));
    let next = install(&VersionSpec::Latest, begin(Some(candidate("bin/beamtalk", false)), candidate("/c", false)));
    assert_eq!(failure(next), "BEAMTALK_UAT_BIN does not exist: bin/beamtalk");
}

#[test]
fn paths_are_resolved_against_the_working_directory() {
    assert_eq!(resolve("/", "b", false), "/b");
    assert_eq!(resolve("/w/", "./b", false), "/w/./b");
    assert_eq!(resolve("/w", "/b", false), "/b");
    assert_eq!(resolve("/w", "C:\\b", false), "/w/C:\\b");
    assert_eq!(resolve("C:\\w", "b\\c", true), "C:\\w\\b\\c");
    assert_eq!(resolve("C:\\w", "D:/b", true), "D:/b");
    assert_eq!(resolve("C:\\w", "\\b", true), "C:\\b");
    assert_eq!(resolve("C:\\w", "c:b", true), "C:\\w\\b");
    assert_eq!(resolve("C:\\w", "D:b", true), "D:\\b");
    assert_eq!(resolve("C:\\w", "\\\\h\\s\\b", true), "\\\\h\\s\\b");
    assert!(is_absolute("/", false) && !is_absolute("", false) && !is_absolute("C:\\", false));
    assert!(is_absolute("C:\\", true) && !is_absolute("C:b", true) && !is_absolute("/b", true));
}

fn item(name: &str, id: usize, kind: EntryKind) -> ProjectEntry {
    ProjectEntry { name: Some(name.to_string()), id, kind }
}

#[test]
fn what_is_copied_of_a_project() {
    let tree = || {
        vec![
            item("src", 0, EntryKind::Dir(vec![
                item("A.bt", 1, EntryKind::File),
                item("_build", 2, EntryKind::Dir(vec![item("A.beam", 3, EntryKind::File)])),
                item("deep", 4, EntryKind::Dir(vec![
                    item(".git", 5, EntryKind::File),
                    item("_builds", 6, EntryKind::File),
                ])),
            ])),
            item(".git", 7, EntryKind::Dir(vec![item("lost", 8, EntryKind::Broken("e".to_string()))])),
            ProjectEntry { name: None, id: 9, kind: EntryKind::File },
        ]
    };
    assert_eq!(plan_copy(&tree()), Ok(vec![0, 1, 4, 6, 9]));
    let mut broken = tree();
    broken.push(item("x", 10, EntryKind::Dir(vec![item("y", 11, EntryKind::Broken("gone".to_string()))])));
    broken.push(item("z", 12, EntryKind::Broken("late".to_string())));
    assert_eq!(plan_copy(&broken), Err("gone".to_string()));
    assert_eq!(plan_copy(&Vec::new()), Ok(vec![]));
}

#[test]
fn only_exact_versions_are_reused() {
    for spec in [VersionSpec::Latest, VersionSpec::Nightly, VersionSpec::Edge] {
        let next = install(&spec, begin(None, candidate("/c", true)));
        assert!(matches!(next, InstallNext::Download));
    }
    let next = install(&exact(), begin(None, candidate("/c", true)));
    assert!(matches!(next, InstallNext::Query { bin } if bin == "/c"));
    let next = install(&exact(), begin(None, candidate("/c", false)));
    assert!(matches!(next, InstallNext::Download));
}

#[test]
fn downloads_must_give_a_binary() {
    let next = install(
        &exact(),
        InstallEvent::Downloaded { result: Ok(()), cached: candidate("/c", false) },
    );
    assert_eq!(
        failure(next),
        "toolchain install did not produce /c — archive layout may have changed"
    );
    let next = install(
        &exact(),
        InstallEvent::Downloaded { result: Ok(()), cached: candidate("/c", true) },
    );
    assert!(matches!(next, InstallNext::Query { bin } if bin == "/c"));
    let next = install(
        &exact(),
        InstallEvent::Downloaded {
            result: Err(InstallError::Refused("no".to_string())),
            cached: candidate("/c", true),
        },
    );
    assert!(matches!(next, InstallNext::Done(Err(InstallError::Refused(m))) if m == "no"));
}

#[test]
fn the_version_is_asked_for() {
    let asked = |output| install(&exact(), InstallEvent::Queried { bin: "/c".to_string(), output });
    match asked(Ok(output(Some(0), b" beamtalk 0.4.0\n"))) {
        InstallNext::Done(Ok(tc)) => {
            assert_eq!(tc.bin, "/c");
            assert_eq!(tc.version, "beamtalk 0.4.0");
        }
        other => panic!("{other:?}"),
    }
    assert_eq!(failure(asked(Err("e".to_string()))), "failed to run `/c --version`: e");
    assert_eq!(
        failure(asked(Ok(output(Some(2), b"")))),
        "`/c --version` exited with status Some(2)"
    );
    assert_eq!(query_version("/c", Ok(output(Some(0), b"\xff"))), Ok("\u{fffd}".to_string()));
    assert_eq!(version_verdict("/c", Some(0), "", "\t1 \n"), Ok("1".to_string()));
    assert!(version_verdict("/c", None, "signal", "1").is_err());
}

#[test]
fn a_missing_rolling_release_is_skipped() {
    let refused = || Err(InstallError::Refused("gone".to_string()));
    assert!(matches!(shared(&VersionSpec::Nightly, refused()), Ok(None)));
    assert!(matches!(shared(&VersionSpec::Edge, refused()), Ok(None)));
    for spec in [VersionSpec::Latest, exact()] {
        assert_eq!(
            shared(&spec, refused()).unwrap_err(),
            "failed to install Beamtalk toolchain: gone"
        );
    }
    let failed = Err(InstallError::Failed("disk full".to_string()));
    assert_eq!(
        shared(&VersionSpec::Nightly, failed).unwrap_err(),
        "failed to install Beamtalk toolchain: disk full"
    );
    let tc = Toolchain { bin: "/b".to_string(), version: "1".to_string() };
    let shared_tc = shared(&VersionSpec::Latest, Ok(tc)).unwrap().unwrap();
    assert_eq!((shared_tc.bin.as_str(), shared_tc.version.as_str()), ("/b", "1"));
}

#[test]
fn arguments_of_the_download() {
    let glob = asset_glob("linux-x86_64", "tar.gz");
    assert_eq!(glob, "beamtalk-*-linux-x86_64.tar.gz");
    let tail = [
        "--repo",
        "jamesc/beamtalk",
        "--pattern",
        "beamtalk-*-linux-x86_64.tar.gz",
        "--pattern",
        "beamtalk-*-linux-x86_64.tar.gz.sha256",
        "--dir",
        "/t",
        "--clobber",
    ];
    let with = |head: &[&str]| -> Vec<String> {
        head.iter().chain(tail.iter()).map(|s| s.to_string()).collect()
    };
    assert_eq!(gh_args(&VersionSpec::Latest, &glob, "/t"), with(&["release", "download"]));
    assert_eq!(
        gh_args(&VersionSpec::Nightly, &glob, "/t"),
        with(&["release", "download", "nightly"])
    );
    assert_eq!(gh_args(&exact(), &glob, "/t"), with(&["release", "download", "v0.4.0"]));
    assert_eq!(download_dir(&exact(), 4711), "dl-v0.4.0-4711");
}

fn entry(path: &str, name: Option<&str>, is_dir: bool) -> Result<DirEntry, String> {
    Ok(DirEntry { path: path.to_string(), name: name.map(str::to_string), is_dir })
}

#[test]
fn finding_the_archive() {
    let listing = vec![
        entry("/t/x", None, false),
        entry("/t/b.tar.gz.sha256", Some("b.tar.gz.sha256"), false),
        entry("/t/b.tar.gz", Some("b.tar.gz"), false),
        entry("/t/c.tar.gz", Some("c.tar.gz"), false),
        Err("late".to_string()),
    ];
    assert_eq!(find_archive("/t", "tar.gz", Ok(listing)), Ok("/t/b.tar.gz".to_string()));
    assert_eq!(
        find_archive("/t", "zip", Ok(vec![entry("/t/zip", Some("zip"), false)])),
        Err("no `*.zip` asset downloaded into /t (release may lack this platform)".to_string())
    );
    assert_eq!(
        find_archive("/t", "zip", Ok(vec![Err("early".to_string()), entry("/t/a.zip", Some("a.zip"), false)])),
        Err("early".to_string())
    );
    assert_eq!(
        find_archive("/t", "zip", Err("e".to_string())),
        Err("read_dir /t: e".to_string())
    );
}

#[test]
fn checksums() {
    assert_eq!(read_checksum("/a", Some(" AbC  a.zip\n".to_string())).unwrap(), "AbC");
    assert!(matches!(
        read_checksum("/a", Some(" \n".to_string())),
        Err(Check::Unverified(None))
    ));
    assert!(matches!(
        read_checksum("/a", None),
        Err(Check::Unverified(Some(w))) if w == "warning: no checksum file for /a, skipping"
    ));
    assert!(matches!(verify_checksum("/a", "AbC0", Some("aBc0".to_string())), Check::Intact));
    assert!(matches!(
        verify_checksum("/a", "ab", Some("ac".to_string())),
        Check::Mismatch(m) if m == "checksum mismatch for /a:\n  expected: ab\n  actual:   ac"
    ));
    assert!(matches!(verify_checksum("/a", "ab", Some("a".to_string())), Check::Mismatch(_)));
    assert!(matches!(
        verify_checksum("/a", "ab", None),
        Check::Unverified(Some(w)) if w == "warning: no sha256sum/shasum available, skipping verification"
    ));
    // Only ASCII letters are compared without case.
    assert!(matches!(verify_checksum("/a", "É", Some("é".to_string())), Check::Mismatch(_)));
}

#[test]
fn hashing_tools() {
    let first = sha256_command("/a", false);
    assert_eq!(first.program, "sha256sum");
    assert_eq!(first.args, ["/a"]);
    let second = sha256_command("/a", true);
    assert_eq!(second.program, "shasum");
    assert_eq!(second.args, ["-a", "256", "/a"]);
    assert_eq!(sha256_hex(Some(output(Some(0), b"abc  /a\n"))), Some("abc".to_string()));
    assert_eq!(sha256_hex(Some(output(Some(0), b" \n"))), None);
    assert_eq!(sha256_hex(Some(output(Some(1), b"abc"))), None);
    assert_eq!(sha256_hex(None), None);
}

#[test]
fn extraction() {
    let tar = extract("/a", "/d", "tar.gz").unwrap();
    assert_eq!((tar.program.as_str(), tar.args.join(" ")), ("tar", "-xzf /a -C /d".to_string()));
    let zip = extract("/a", "/d", "zip").unwrap();
    assert_eq!((zip.program.as_str(), zip.args.join(" ")), ("unzip", "-qo /a -d /d".to_string()));
    assert_eq!(extract("/a", "/d", "rar").unwrap_err(), "unsupported archive extension: rar");
    assert_eq!(extracted("/a", Err("e".to_string())), Err("failed to extract /a: e".to_string()));
    assert_eq!(
        extracted("/a", Ok(Exit { code: Some(2), status: "exit status: 2".to_string() })),
        Err("extraction of /a failed (exit status: 2)".to_string())
    );
    assert_eq!(extracted("/a", Ok(Exit { code: Some(0), status: String::new() })), Ok(()));
}

#[test]
fn the_single_directory_of_an_archive() {
    let listing = vec![
        entry("/s/README", Some("README"), false),
        Err("e".to_string()),
        entry("/s/beamtalk-1", None, true),
    ];
    assert_eq!(single_subdir("/s", Ok(listing)), Ok("/s/beamtalk-1".to_string()));
    assert_eq!(
        single_subdir("/s", Ok(vec![])),
        Err("expected one top-level dir in archive, found 0 in /s".to_string())
    );
    let two = vec![entry("/s/a", None, true), entry("/s/b", None, true)];
    assert_eq!(
        single_subdir("/s", Ok(two)),
        Err("expected one top-level dir in archive, found 2 in /s".to_string())
    );
    assert_eq!(single_subdir("/s", Err("e".to_string())), Err("read_dir /s: e".to_string()));
}

fn places(parent: Option<&str>) -> Places {
    Places {
        tmp: "/t".to_string(),
        staging: "/t/extract".to_string(),
        prefix: "/c/v0.4.0".to_string(),
        parent: parent.map(str::to_string),
    }
}

fn ok_exit() -> DownloadEvent {
    DownloadEvent::Ran(Ok(Exit { code: Some(0), status: "exit status: 0".to_string() }))
}

fn listed(entries: Vec<Result<DirEntry, String>>) -> DownloadEvent {
    DownloadEvent::Listed(Ok(entries))
}

fn made() -> DownloadEvent {
    DownloadEvent::Made(Ok(()))
}

fn start(parent: Option<&str>) -> Download {
    let (d, next) = download_and_extract(&exact(), "linux", "x86_64", places(parent));
    assert!(matches!(next.action, DownloadAction::MakeDir { dir, fresh: true } if dir == "/t"));
    d
}

/// A download up to the point where the checksum file is read.
fn fetched(parent: Option<&str>) -> Download {
    let mut d = start(parent);
    match d.next(made()).action {
        DownloadAction::Run(CommandLine { program, args }) => {
            assert_eq!(program, "gh");
            assert_eq!(args[2], "v0.4.0");
        }
        other => panic!("{other:?}"),
    }
    assert!(matches!(d.next(ok_exit()).action, DownloadAction::List { dir } if dir == "/t"));
    let archive = vec![entry("/t/b.tar.gz", Some("b.tar.gz"), false)];
    assert!(matches!(
        d.next(listed(archive)).action,
        DownloadAction::ReadChecksum { file } if file == "/t/b.tar.gz.sha256"
    ));
    d
}

fn staging_made(next: &DownloadNext) -> bool {
    matches!(&next.action, DownloadAction::MakeDir { dir, fresh: false } if dir == "/t/extract")
}

fn error_of(next: DownloadNext) -> String {
    match next.action {
        DownloadAction::Done(Err(DownloadError::Failed(m))) => m,
        other => panic!("{other:?}"),
    }
}

#[test]
fn a_whole_download() {
    let mut d = fetched(Some("/c"));
    let next = d.next(DownloadEvent::Checksum(Some("ABC b.tar.gz".to_string())));
    assert!(matches!(next.action, DownloadAction::Hash(c) if c.program == "sha256sum"));
    let next = d.next(DownloadEvent::Hashed(None));
    assert!(matches!(next.action, DownloadAction::Hash(c) if c.program == "shasum"));
    let next = d.next(DownloadEvent::Hashed(Some(output(Some(0), b"abc  /t/b.tar.gz"))));
    assert!(staging_made(&next) && next.warning.is_none());
    match d.next(made()).action {
        DownloadAction::Run(c) => {
            assert_eq!(c.program, "tar");
            assert_eq!(c.args, ["-xzf", "/t/b.tar.gz", "-C", "/t/extract"]);
        }
        other => panic!("{other:?}"),
    }
    assert!(matches!(d.next(ok_exit()).action, DownloadAction::List { dir } if dir == "/t/extract"));
    let root = vec![entry("/t/extract/beamtalk-0.4.0", None, true)];
    let next = d.next(listed(root));
    assert!(matches!(next.action, DownloadAction::MakeDir { dir, fresh: false } if dir == "/c"));
    assert!(matches!(
        d.next(made()).action,
        DownloadAction::Install { from, to } if from == "/t/extract/beamtalk-0.4.0" && to == "/c/v0.4.0"
    ));
    assert!(matches!(d.next(made()).action, DownloadAction::Remove { dir } if dir == "/t"));
    assert!(matches!(d.next(DownloadEvent::Removed).action, DownloadAction::Done(Ok(()))));
}

#[test]
fn a_download_without_a_parent_directory() {
    let mut d = fetched(None);
    assert!(staging_made(&d.next(DownloadEvent::Checksum(Some(String::new())))));
    d.next(made());
    d.next(ok_exit());
    let root = vec![entry("/t/extract/r", None, true)];
    assert!(matches!(d.next(listed(root)).action, DownloadAction::Install { .. }));
    assert_eq!(
        error_of(d.next(DownloadEvent::Made(Err("busy".to_string())))),
        "install /t/extract/r -> /c/v0.4.0: busy"
    );
}

#[test]
fn warnings_of_a_download() {
    let mut d = fetched(None);
    let next = d.next(DownloadEvent::Checksum(None));
    assert!(staging_made(&next));
    assert_eq!(
        next.warning.as_deref(),
        Some("warning: no checksum file for /t/b.tar.gz, skipping")
    );
    let mut d = fetched(None);
    d.next(DownloadEvent::Checksum(Some("abc".to_string())));
    d.next(DownloadEvent::Hashed(None));
    let next = d.next(DownloadEvent::Hashed(Some(output(Some(1), b""))));
    assert!(staging_made(&next));
    assert_eq!(
        next.warning.as_deref(),
        Some("warning: no sha256sum/shasum available, skipping verification")
    );
}

#[test]
fn a_corrupt_archive_is_not_extracted() {
    let mut d = fetched(None);
    d.next(DownloadEvent::Checksum(Some("abc".to_string())));
    let next = d.next(DownloadEvent::Hashed(Some(output(Some(0), b"abd x"))));
    assert!(matches!(
        next.action,
        DownloadAction::Done(Err(DownloadError::Corrupt(m)))
            if m == "checksum mismatch for /t/b.tar.gz:\n  expected: abc\n  actual:   abd"
    ));
}

#[test]
fn errors_of_a_download() {
    let (_, next) = download_and_extract(&exact(), "plan9", "mips", places(None));
    assert_eq!(error_of(next), "unsupported platform: plan9-mips");

    let mut d = start(None);
    assert_eq!(error_of(d.next(DownloadEvent::Made(Err("e".to_string())))), "mkdir /t: e");

    let mut d = start(None);
    d.next(made());
    assert_eq!(
        error_of(d.next(DownloadEvent::Ran(Err("e".to_string())))),
        "failed to spawn `gh release download` (is `gh` installed?): e"
    );

    let mut d = start(None);
    d.next(made());
    let next = d.next(DownloadEvent::Ran(Ok(Exit { code: Some(1), status: "exit status: 1".to_string() })));
    assert!(matches!(
        next.action,
        DownloadAction::Done(Err(DownloadError::Refused(m)))
            if m == "`gh release download` for v0.4.0 failed (exit status: 1)"
    ));

    let mut d = start(None);
    d.next(made());
    d.next(ok_exit());
    assert_eq!(
        error_of(d.next(listed(vec![]))),
        "no `*.tar.gz` asset downloaded into /t (release may lack this platform)"
    );

    let mut d = fetched(None);
    d.next(DownloadEvent::Checksum(None));
    assert_eq!(error_of(d.next(DownloadEvent::Made(Err("e".to_string())))), "mkdir /t/extract: e");

    let mut d = fetched(None);
    d.next(DownloadEvent::Checksum(None));
    d.next(made());
    assert_eq!(
        error_of(d.next(DownloadEvent::Ran(Err("e".to_string())))),
        "failed to extract /t/b.tar.gz: e"
    );

    let mut d = fetched(Some("/c"));
    d.next(DownloadEvent::Checksum(None));
    d.next(made());
    d.next(ok_exit());
    d.next(listed(vec![entry("/t/extract/r", None, true)]));
    assert_eq!(error_of(d.next(DownloadEvent::Made(Err("e".to_string())))), "mkdir /c: e");
}

fn staged(stagings: &mut Stagings, name: &str) -> String {
    stage_project(stagings, name, "/r/projects/x", true, "/tmp", false).unwrap().path().to_string()
}

#[test]
fn stagings() {
    let mut stagings = Stagings::new(12);
    assert_eq!(staged(&mut stagings, "smoke"), "/tmp/beamtalk-uat-smoke-12-0");
    let missing = stage_project(&mut stagings, "smoke", "/r/projects/smoke", false, "/tmp", false);
    assert_eq!(missing.unwrap_err(), "project not found: /r/projects/smoke");
    assert_eq!(staged(&mut stagings, "smoke"), "/tmp/beamtalk-uat-smoke-12-1");
    assert_eq!(staging_failed("smoke", "disk full"), "staging project smoke: disk full");
    assert_eq!(StagedProject::new("/tmp/x".to_string()).path(), "/tmp/x");
}

#[test]
fn no_two_stagings_share_a_directory() {
    let mut stagings = Stagings::new(1);
    let mut seen = Vec::new();
    for name in ["a", "a", "a-1", "a-1-0", "b", "a", "", "-1-0"] {
        for _ in 0..12 {
            let path = staged(&mut stagings, name);
            assert!(!seen.contains(&path), "{path}");
            seen.push(path);
        }
    }
    let mut windows = Stagings::new(1);
    let path = stage_project(&mut windows, "a", "", true, "C:\\T\\", true).unwrap();
    assert_eq!(path.path(), "C:\\T\\beamtalk-uat-a-1-0");
    let path = stage_project(&mut windows, "a", "", true, "", true).unwrap();
    assert_eq!(path.path(), "beamtalk-uat-a-1-1");
}

#[test]
fn build_artifacts_are_left_out() {
    assert!(is_left_out(Some("_build")));
    assert!(is_left_out(Some(".git")));
    assert!(!is_left_out(Some("src")));
    assert!(!is_left_out(Some(".gitignore")));
    assert!(!is_left_out(None));
}
