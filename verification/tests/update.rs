use pastebridge::update::{
    archive_is_sound, archive_name, checksum_for, checksum_is_listed, find_asset, is_older,
    latest_release, list_of, newer_release, parse_version, releases_url, rustc_target, sha256_file,
    should_update, staging_name, user_agent, Asset, Consent, Release, UpdateProblem, Version,
};
use pastebridge::updating::{Extraction, UpdateAction, UpdateEvent, UpdateFailure, Updating};

fn release(tag: &str, draft: bool, prerelease: bool) -> Release {
    Release {
        tag_name: tag.into(),
        draft,
        prerelease,
        assets: vec![],
    }
}

#[test]
fn parse_and_order_versions() {
    assert_eq!(parse_version("v0.1.1"), Some(Version(0, 1, 1)));
    assert_eq!(parse_version("0.1.2"), Some(Version(0, 1, 2)));
    assert!(parse_version("stable").is_none());
    assert!(Version(0, 1, 1) < Version(0, 1, 2));
    assert!(Version(0, 1, 2) <= Version(0, 1, 2));
}

#[test]
fn reads_sha256sums_lines() {
    let sums = "abc123  pastebridge-x86_64-unknown-linux-gnu.tar.gz\n";
    assert_eq!(
        checksum_for(sums, "pastebridge-x86_64-unknown-linux-gnu.tar.gz").as_deref(),
        Some("abc123")
    );
}

#[test]
fn versions_have_three_numbers() {
    assert_eq!(parse_version("1.2"), None);
    assert_eq!(parse_version("1.2.3.4"), None);
    assert_eq!(parse_version("1.2.4294967296"), None);
    assert_eq!(parse_version("vv1.2.3"), None);
    assert_eq!(parse_version("v1.20.3"), Some(Version(1, 20, 3)));
    assert_eq!(Version(1, 20, 3).text(), "1.20.3");
    assert_eq!(
        parse_version(&Version(4294967295, 0, 9).text()),
        Some(Version(4294967295, 0, 9))
    );
    assert!(is_older(Version(0, 9, 9), Version(1, 0, 0)));
    assert!(!is_older(Version(1, 0, 0), Version(1, 0, 0)));
    assert!(Version(2, 0, 0) > Version(1, 9, 9));
}

#[test]
fn the_latest_release_is_taken() {
    let releases = vec![
        release("v0.2.0", false, false),
        release("v9.0.0", true, false),
        release("v8.0.0", false, true),
        release("nightly", false, false),
        release("0.2.0", false, false),
        release("v0.1.9", false, false),
    ];
    assert_eq!(latest_release(&releases), Some((Version(0, 2, 0), 4)));
    assert_eq!(
        newer_release("0.1.2", &releases),
        Ok(Some((Version(0, 2, 0), 4)))
    );
    assert_eq!(newer_release("0.2.0", &releases), Ok(None));
    assert_eq!(
        newer_release("dev", &releases),
        Err(UpdateProblem::CurrentVersion)
    );
    assert_eq!(
        newer_release("0.1.2", &vec![release("x", false, false)]),
        Err(UpdateProblem::NoRelease)
    );
    assert_eq!(latest_release(&vec![]), None);
}

#[test]
fn builds_are_found_by_name() {
    let asset = |name: &str, url: &str| Asset {
        name: name.into(),
        browser_download_url: url.into(),
    };
    let mut latest = release("v1.0.0", false, false);
    latest.assets = vec![asset("a", "1"), asset("b", "2"), asset("b", "3")];
    assert_eq!(find_asset(&latest, "b").unwrap().browser_download_url, "2");
    assert!(find_asset(&latest, "c").is_none());
    assert_eq!(
        rustc_target("linux", "x86_64"),
        Some("x86_64-unknown-linux-gnu")
    );
    assert_eq!(rustc_target("macos", "aarch64"), Some("aarch64-apple-darwin"));
    assert_eq!(rustc_target("linux", "arm"), None);
    assert_eq!(
        archive_name("x86_64-apple-darwin"),
        "pastebridge-x86_64-apple-darwin.tar.gz"
    );
    assert_eq!(
        releases_url(),
        "https://api.github.com/repos/hapwi/pastebridge/releases?per_page=20"
    );
    assert_eq!(user_agent("0.1.2"), "pastebridge/0.1.2");
    assert_eq!(staging_name(Some("pb")), ".pb.new");
    assert_eq!(staging_name(None), ".pastebridge.new");
}

#[test]
fn updates_are_agreed_to() {
    assert_eq!(should_update(true, false, ""), Consent::Given);
    assert_eq!(should_update(false, false, "y"), Consent::NotTerminal);
    assert_eq!(should_update(false, true, "y"), Consent::Given);
    assert_eq!(should_update(false, true, "\n"), Consent::Refused);
}

#[test]
fn checksums_are_compared() {
    let sum = "0eb3e36bfb24dcd9bb1d1bece1531216b59539a8fde17ee80224af0653c92aa3";
    assert_eq!(sha256_file(b"archive"), sum);
    let list = format!("ff  other\n{}  **file\n", sum.to_uppercase());
    assert_eq!(checksum_for(&list, "file").as_deref(), Some(sum));
    assert_eq!(checksum_for("ff  other\n\nff  file\n", "file"), None);
    let bytes = list.into_bytes();
    assert!(archive_is_sound(Some(bytes.clone()), "file", b"archive"));
    assert!(!archive_is_sound(Some(bytes.clone()), "file", b"tampered"));
    assert!(archive_is_sound(Some(bytes), "unlisted", b"tampered"));
    assert!(archive_is_sound(Some(vec![0xFF]), "file", b"x"));
    assert!(archive_is_sound(None, "file", b"x"));
}

#[test]
fn listed_checksums_have_to_match() {
    let list = || Some(b"AB12 *one.tar.gz\n".to_vec());
    assert!(checksum_is_listed(list(), "one.tar.gz", "ab12"));
    assert!(!checksum_is_listed(list(), "one.tar.gz", "ab13"));
    assert!(checksum_is_listed(list(), "two.tar.gz", "ab13"));
    assert!(checksum_is_listed(Some(vec![0xff]), "one.tar.gz", "ab13"));
    assert!(checksum_is_listed(None, "one.tar.gz", "ab13"));
}

const ARCHIVE: &str = "pastebridge-x86_64-unknown-linux-gnu.tar.gz";

fn published(with_sums: bool) -> Vec<Release> {
    let mut latest = release("v0.2.0", false, false);
    latest.assets.push(Asset {
        name: ARCHIVE.into(),
        browser_download_url: "https://build".into(),
    });
    if with_sums {
        latest.assets.push(Asset {
            name: "SHA256SUMS".into(),
            browser_download_url: "https://sums".into(),
        });
    }
    vec![release("v0.1.0", false, false), latest]
}

fn started(yes: bool, terminal: bool) -> Updating {
    let (updating, action) = Updating::start("0.1.2", "linux", "x86_64", yes, terminal);
    assert!(matches!(action, UpdateAction::FetchReleases(url) if url == releases_url()));
    updating
}

#[test]
fn an_update_goes_its_course() {
    let mut updating = started(false, true);
    assert!(matches!(
        updating.next(UpdateEvent::Releases(published(true))),
        UpdateAction::Show { version: Version(0, 2, 0), ask: true }
    ));
    assert!(matches!(
        updating.next(UpdateEvent::Answered("y\n".into())),
        UpdateAction::Download { url, archive } if url == "https://build" && archive == ARCHIVE
    ));
    assert!(matches!(
        updating.next(UpdateEvent::Downloaded),
        UpdateAction::FetchSums(url) if url == "https://sums"
    ));
    let sums = format!("{}  {ARCHIVE}\n", sha256_file(b"archive"));
    assert!(matches!(
        updating.next(UpdateEvent::Sums(sums.into_bytes())),
        UpdateAction::ReadArchive(archive) if archive == ARCHIVE
    ));
    assert!(matches!(
        updating.next(UpdateEvent::ArchiveRead(b"archive".to_vec())),
        UpdateAction::Extract(archive) if archive == ARCHIVE
    ));
    assert!(matches!(
        updating.next(UpdateEvent::Extracted(Extraction::Ready)),
        UpdateAction::Replace
    ));
    assert!(matches!(
        updating.next(UpdateEvent::Replaced),
        UpdateAction::LookForDaemon
    ));
    assert!(matches!(
        updating.next(UpdateEvent::Daemon(true)),
        UpdateAction::Restart
    ));
    assert!(matches!(
        updating.next(UpdateEvent::Failed),
        UpdateAction::Installed(Version(0, 2, 0))
    ));
    assert!(matches!(
        updating.next(UpdateEvent::Replaced),
        UpdateAction::Fail(UpdateFailure::OutOfTurn)
    ));
}

#[test]
fn an_update_without_checksums_is_extracted_at_once() {
    let mut updating = started(true, false);
    assert!(matches!(
        updating.next(UpdateEvent::Releases(published(false))),
        UpdateAction::Show { ask: false, .. }
    ));
    assert!(matches!(
        updating.next(UpdateEvent::Answered(String::new())),
        UpdateAction::Download { .. }
    ));
    assert!(matches!(
        updating.next(UpdateEvent::Downloaded),
        UpdateAction::Extract(_)
    ));
    assert!(matches!(
        updating.next(UpdateEvent::Extracted(Extraction::NoProgram)),
        UpdateAction::Fail(UpdateFailure::NoProgram)
    ));

    let mut updating = started(true, false);
    updating.next(UpdateEvent::Releases(published(true)));
    updating.next(UpdateEvent::Answered(String::new()));
    updating.next(UpdateEvent::Downloaded);
    assert!(matches!(
        updating.next(UpdateEvent::Sums(b"ff  other\n".to_vec())),
        UpdateAction::Extract(_)
    ));
    assert!(matches!(
        updating.next(UpdateEvent::Extracted(Extraction::Failed)),
        UpdateAction::Fail(UpdateFailure::NotExtracted)
    ));
}

#[test]
fn updates_stop_before_the_program_is_replaced() {
    let mut updating = started(false, true);
    updating.next(UpdateEvent::Releases(published(true)));
    assert!(matches!(
        updating.next(UpdateEvent::Answered("n\n".into())),
        UpdateAction::Declined
    ));
    let mut updating = started(false, false);
    updating.next(UpdateEvent::Releases(published(true)));
    assert!(matches!(
        updating.next(UpdateEvent::Answered(String::new())),
        UpdateAction::Fail(UpdateFailure::NotTerminal)
    ));
    let mut updating = started(true, true);
    updating.next(UpdateEvent::Releases(published(true)));
    updating.next(UpdateEvent::Answered(String::new()));
    updating.next(UpdateEvent::Downloaded);
    updating.next(UpdateEvent::Sums(format!("ff  {ARCHIVE}\n").into_bytes()));
    assert!(matches!(
        updating.next(UpdateEvent::ArchiveRead(b"archive".to_vec())),
        UpdateAction::Fail(UpdateFailure::ChecksumMismatch)
    ));
    assert!(matches!(
        started(true, true).next(UpdateEvent::Failed),
        UpdateAction::Fail(UpdateFailure::StepFailed)
    ));
    assert!(matches!(
        started(true, true).next(UpdateEvent::Extracted(Extraction::Ready)),
        UpdateAction::Fail(UpdateFailure::OutOfTurn)
    ));
    assert!(matches!(
        started(true, true).next(UpdateEvent::Releases(vec![])),
        UpdateAction::Fail(UpdateFailure::NoRelease)
    ));
    assert!(matches!(
        started(true, true).next(UpdateEvent::Releases(vec![release("0.1.2", false, false)])),
        UpdateAction::UpToDate
    ));
    let (mut odd, _) = Updating::start("dev", "linux", "x86_64", true, true);
    assert!(matches!(
        odd.next(UpdateEvent::Releases(published(true))),
        UpdateAction::Fail(UpdateFailure::CurrentVersion)
    ));
    let (mut other, _) = Updating::start("0.1.2", "plan9", "x86_64", true, true);
    other.next(UpdateEvent::Releases(published(true)));
    assert!(matches!(
        other.next(UpdateEvent::Answered(String::new())),
        UpdateAction::Fail(UpdateFailure::NoTarget)
    ));
    let (mut other, _) = Updating::start("0.1.2", "linux", "aarch64", true, true);
    other.next(UpdateEvent::Releases(published(true)));
    assert!(matches!(
        other.next(UpdateEvent::Answered(String::new())),
        UpdateAction::Fail(UpdateFailure::NoBuild)
    ));
    assert_eq!(list_of(vec![0xff]), "");
    assert_eq!(list_of(b"ff".to_vec()), "ff");
}
