use lego_radio::text::to_hex;
use lego_radio::updater::{
    check_for_update, checksum, do_update, do_update_to, download_url, expected_checksum,
    get_binary_name, latest_release_url, release_version, Update, UpdatePhase, UpdateReply,
    GITHUB_REPO, TMP_PATH, VERSION,
};
use lego_radio::version::{compare_versions, version_greater, Order};

// =============================================================================
// Version Comparison Tests
// =============================================================================

#[test]
fn test_version_compare_patch() {
    assert!(version_greater("1.0.1", "1.0.0"));
    assert!(version_greater("0.1.1", "0.1.0"));
    assert!(version_greater("0.0.2", "0.0.1"));
}

#[test]
fn test_version_compare_minor() {
    assert!(version_greater("1.1.0", "1.0.0"));
    assert!(version_greater("1.2.0", "1.1.9"));
    assert!(version_greater("0.2.0", "0.1.0"));
}

#[test]
fn test_version_compare_major() {
    assert!(version_greater("2.0.0", "1.9.9"));
    assert!(version_greater("2.0.0", "1.0.0"));
    assert!(version_greater("10.0.0", "9.9.9"));
}

#[test]
fn test_version_compare_equal() {
    assert!(!version_greater("1.0.0", "1.0.0"));
    assert!(!version_greater("0.0.1", "0.0.1"));
    assert!(!version_greater("99.99.99", "99.99.99"));
}

#[test]
fn test_version_compare_older() {
    assert!(!version_greater("1.0.0", "1.0.1"));
    assert!(!version_greater("0.9.9", "1.0.0"));
    assert!(!version_greater("1.0.0", "2.0.0"));
}

#[test]
fn test_version_compare_different_lengths() {
    assert!(version_greater("1.0.1", "1.0"));
    assert!(!version_greater("1.0", "1.0.1"));
    assert!(version_greater("1.0.0.1", "1.0.0"));
}

#[test]
fn test_version_compare_with_leading_zeros() {
    // Parser handles leading zeros gracefully
    assert!(!version_greater("1.0.0", "1.00.00"));
}

// =============================================================================
// Binary Name Selection Tests
// =============================================================================

#[test]
fn test_binary_name_selection() {
    // Test all supported platforms
    assert_eq!(
        get_binary_name("linux", "aarch64"),
        Some("lego-radio-arm64")
    );

    // Only arm64 Linux is supported
    assert_eq!(get_binary_name("linux", "x86_64"), None);
    assert_eq!(get_binary_name("macos", "aarch64"), None);
    assert_eq!(get_binary_name("windows", "x86_64"), None);
}

// =============================================================================
// Release Tests
// =============================================================================

fn tag_name(json: &str) -> String {
    let release: serde_json::Value = serde_json::from_str(json).unwrap();
    release
        .get("tag_name")
        .and_then(|tag| tag.as_str())
        .unwrap()
        .to_string()
}

#[test]
fn test_github_release_tag_parsing() {
    let json = r#"{"tag_name": "v1.2.3"}"#;
    let tag = tag_name(json);
    let version = release_version(&tag);
    assert_eq!(version, "1.2.3");
}

#[test]
fn test_github_release_without_v_prefix() {
    let json = r#"{"tag_name": "1.2.3"}"#;
    let tag = tag_name(json);
    let version = release_version(&tag);
    assert_eq!(version, "1.2.3");
}

// =============================================================================
// URL Construction Tests
// =============================================================================

#[test]
fn test_github_api_url() {
    let url = latest_release_url();
    assert_eq!(
        url,
        "https://api.github.com/repos/eralpkaraduman/lego-radio/releases/latest"
    );
    assert_eq!(
        url,
        format!(
            "https://api.github.com/repos/{}/releases/latest",
            GITHUB_REPO
        )
    );
}

#[test]
fn test_download_url_construction() {
    let binary_name = "lego-radio-arm64";
    let url = download_url(binary_name);
    assert_eq!(
        url,
        "https://github.com/eralpkaraduman/lego-radio/releases/latest/download/lego-radio-arm64"
    );
    assert_eq!(
        url,
        format!(
            "https://github.com/{}/releases/latest/download/{}",
            GITHUB_REPO, binary_name
        )
    );
}

// =============================================================================
// Constants Tests
// =============================================================================

#[test]
fn test_version_constant_valid() {
    // VERSION should be a valid semver
    let parts: Vec<&str> = VERSION.split('.').collect();
    assert!(parts.len() >= 2, "Version should have at least major.minor");

    for part in parts {
        assert!(
            part.parse::<u32>().is_ok(),
            "Version part '{}' should be numeric",
            part
        );
    }
}

#[test]
fn test_github_repo_format() {
    assert!(
        GITHUB_REPO.contains('/'),
        "GITHUB_REPO should be in 'owner/repo' format"
    );
    let parts: Vec<&str> = GITHUB_REPO.split('/').collect();
    assert_eq!(parts.len(), 2, "GITHUB_REPO should have exactly one '/'");
}

// =============================================================================
// Looking for updates
// =============================================================================

#[test]
fn version_parts_that_are_no_numbers_are_left_out() {
    assert!(!version_greater("1.0.beta", "1.0"));
    assert!(version_greater("1.x.1", "1.0"));
    assert!(!version_greater("", ""));
    assert!(version_greater("0", "x"));
}

#[test]
fn pre_release_comes_before_its_release() {
    assert!(version_greater("1.0.1-beta", "1.0.0"));
    assert!(!version_greater("1.0.0", "1.0.1-beta"));
    assert!(version_greater("1.0.1", "1.0.1-beta"));
    assert!(!version_greater("1.0.1-beta", "1.0.1"));
    assert!(!version_greater("1.0.0-beta", "1.0.0-beta"));
}

#[test]
fn pre_releases_are_ordered_by_their_identifiers() {
    let versions = [
        "1.0.0-alpha",
        "1.0.0-alpha.1",
        "1.0.0-alpha.beta",
        "1.0.0-beta",
        "1.0.0-beta.2",
        "1.0.0-beta.11",
        "1.0.0-rc.1",
        "1.0.0",
    ];
    for (i, a) in versions.iter().enumerate() {
        for (j, b) in versions.iter().enumerate() {
            let expected = if i < j {
                Order::Less
            } else if i == j {
                Order::Equal
            } else {
                Order::Greater
            };
            assert_eq!(compare_versions(a, b), expected, "{a} {b}");
        }
    }
}

#[test]
fn build_metadata_does_not_count() {
    assert_eq!(compare_versions("1.0.0+5", "1.0.0+7"), Order::Equal);
    assert_eq!(compare_versions("1.0.0-rc.1+a-b", "1.0.0-rc.1"), Order::Equal);
    assert!(version_greater("1.0.1+a", "1.0.0+b"));
}

#[test]
fn numbers_of_a_version_may_be_of_any_size() {
    assert!(version_greater("4294967296.0", "1.0"));
    assert!(version_greater(
        "1.100000000000000000000000000000",
        "1.99999999999999999999999999999"
    ));
    assert!(!version_greater("1.0007", "1.7"));
    assert!(version_greater("1.0008", "1.7"));
    assert!(version_greater("1.0.0-99999999999999999999", "1.0.0-9"));
}

#[test]
fn later_versions_are_ordered() {
    let versions = ["0.9", "0.9.1", "0.10", "1.0", "1.0.0"];
    for (i, a) in versions.iter().enumerate() {
        for (j, b) in versions.iter().enumerate() {
            assert_eq!(version_greater(a, b), i > j);
        }
    }
}

#[test]
fn update_is_found_only_to_a_later_release() {
    assert_eq!(check_for_update(None), None);
    assert_eq!(check_for_update(Some("v0.5.5")), None);
    assert_eq!(check_for_update(Some("v0.5.4")), None);
    assert_eq!(check_for_update(Some("vv0.6.0")), Some("0.6.0".to_string()));
    assert_eq!(check_for_update(Some("1.0")), Some("1.0".to_string()));
    assert_eq!(check_for_update(Some("v0.5.5-rc.1")), None);
    assert_eq!(
        check_for_update(Some("v0.5.6-rc.1")),
        Some("0.5.6-rc.1".to_string())
    );
    assert_eq!(VERSION, "0.5.5");
}

// =============================================================================
// Checksums
// =============================================================================

const ABC: &str = "ba7816bf8f01cfea414140de5dae2223b00361a396177a9cb410ff61f20015ad";

#[test]
fn checksum_of_known_data() {
    assert_eq!(checksum(b"abc"), ABC);
    assert_eq!(
        checksum(b""),
        "e3b0c44298fc1c149afbf4c8996fb92427ae41e4649b934ca495991b7852b855"
    );
}

#[test]
fn hexadecimal_digits_are_lower_case() {
    assert_eq!(to_hex(&[0x00, 0x0f, 0xa0, 0xff]), "000fa0ff");
    assert_eq!(to_hex(&[]), "");
}

#[test]
fn checksum_file_names_its_first_word() {
    assert_eq!(expected_checksum("abc  lego-radio-arm64\n"), "abc");
    assert_eq!(expected_checksum("\n\t abc"), "abc");
    assert_eq!(expected_checksum("  \n"), "");
    assert_eq!(expected_checksum(""), "");
}

// =============================================================================
// Installing
// =============================================================================

const URL: &str =
    "https://github.com/eralpkaraduman/lego-radio/releases/latest/download/lego-radio-arm64";

fn error_of(update: &Update) -> String {
    update.error().unwrap().message()
}

fn downloaded() -> Update {
    let mut update = do_update_to(Some("9.9.9"), "linux", "aarch64");
    update.step(UpdateReply::Done);
    update
}

fn verified() -> Update {
    let mut update = downloaded();
    update.step(UpdateReply::Checksum(format!("{}  lego-radio-arm64", ABC)));
    assert_eq!(update.phase(), UpdatePhase::ReadingDownload);
    update.step(UpdateReply::Data(b"abc".to_vec()));
    update
}

#[test]
fn update_installs_what_its_checksum_names() {
    let mut update = do_update_to(Some("9.9.9"), "linux", "aarch64");
    assert_eq!(update.phase(), UpdatePhase::Downloading);
    assert_eq!(update.version(), "9.9.9");
    assert_eq!(update.binary_url(), URL);
    assert_eq!(update.checksum_url(), format!("{}.sha256", URL));
    assert_eq!(TMP_PATH, "/tmp/lego-radio-update");
    update.step(UpdateReply::Done);
    assert_eq!(update.phase(), UpdatePhase::FetchingChecksum);
    update.step(UpdateReply::Checksum(format!("{}  lego-radio-arm64", ABC)));
    assert_eq!(update.phase(), UpdatePhase::ReadingDownload);
    update.step(UpdateReply::Data(b"abc".to_vec()));
    assert_eq!(update.phase(), UpdatePhase::MarkingDownload);
    update.step(UpdateReply::Done);
    assert_eq!(update.phase(), UpdatePhase::Locating);
    update.step(UpdateReply::Located("/usr/local/bin/lego-radio".to_string()));
    assert_eq!(update.phase(), UpdatePhase::DroppingOldBackup);
    assert_eq!(update.current_exe(), "/usr/local/bin/lego-radio");
    assert_eq!(update.backup_path(), "/usr/local/bin/lego-radio.backup");
    update.step(UpdateReply::Failed("not found".to_string()));
    assert_eq!(update.phase(), UpdatePhase::BackingUp);
    update.step(UpdateReply::Done);
    assert_eq!(update.phase(), UpdatePhase::Copying);
    update.step(UpdateReply::Done);
    assert_eq!(update.phase(), UpdatePhase::MarkingCurrent);
    update.step(UpdateReply::Done);
    assert_eq!(update.phase(), UpdatePhase::DroppingDownload);
    update.step(UpdateReply::Failed("busy".to_string()));
    assert_eq!(update.phase(), UpdatePhase::DroppingBackup);
    update.step(UpdateReply::Done);
    assert_eq!(update.phase(), UpdatePhase::Installed);
    assert!(update.error().is_none());
}

#[test]
fn update_with_a_wrong_checksum_is_discarded() {
    let mut update = downloaded();
    update.step(UpdateReply::Checksum("0000".to_string()));
    update.step(UpdateReply::Data(b"abc".to_vec()));
    assert_eq!(update.phase(), UpdatePhase::Discarding);
    update.step(UpdateReply::Done);
    assert_eq!(update.phase(), UpdatePhase::Failed);
    assert_eq!(
        error_of(&update),
        format!("Checksum mismatch: expected 0000 got {}", ABC)
    );
    update.step(UpdateReply::Done);
    assert_eq!(update.phase(), UpdatePhase::Failed);
}

#[test]
fn checksum_in_upper_case_is_another_checksum() {
    let mut update = downloaded();
    update.step(UpdateReply::Checksum(ABC.to_uppercase()));
    update.judge_download(ABC.to_string());
    assert_eq!(update.phase(), UpdatePhase::Discarding);
}

#[test]
fn empty_checksum_file_matches_nothing() {
    let mut update = downloaded();
    update.step(UpdateReply::Checksum(String::new()));
    update.step(UpdateReply::Data(b"abc".to_vec()));
    assert_eq!(update.phase(), UpdatePhase::Discarding);
    update.step(UpdateReply::Failed("no such file".to_string()));
    assert_eq!(error_of(&update), "no such file");
}

#[test]
fn checksum_that_is_not_published_is_passed_over() {
    let mut update = downloaded();
    update.step(UpdateReply::Missing("status code 404".to_string()));
    assert_eq!(update.phase(), UpdatePhase::MarkingDownload);
}

#[test]
fn unanswered_request_for_the_checksum_ends_the_update() {
    let mut update = downloaded();
    update.step(UpdateReply::NoAnswer("timeout".to_string()));
    assert_eq!(update.phase(), UpdatePhase::Failed);
    assert_eq!(error_of(&update), "Failed to fetch checksum: timeout");
    update.step(UpdateReply::Done);
    assert_eq!(update.phase(), UpdatePhase::Failed);
}

#[test]
fn unreadable_checksum_file_ends_the_update() {
    let mut update = downloaded();
    update.step(UpdateReply::Failed("cut off".to_string()));
    assert_eq!(update.phase(), UpdatePhase::Failed);
    assert_eq!(error_of(&update), "Failed to read checksum: cut off");
}

#[test]
fn failed_download_ends_the_update() {
    let mut update = do_update_to(Some("9.9.9"), "linux", "aarch64");
    update.step(UpdateReply::NoAnswer("timeout".to_string()));
    assert_eq!(update.phase(), UpdatePhase::Failed);
    assert_eq!(error_of(&update), "Download failed: timeout");

    let mut update = do_update_to(Some("9.9.9"), "linux", "aarch64");
    update.step(UpdateReply::Missing("status code 404".to_string()));
    assert_eq!(update.phase(), UpdatePhase::Failed);
    assert_eq!(error_of(&update), "Download failed: status code 404");

    let mut update = do_update_to(Some("9.9.9"), "linux", "aarch64");
    update.step(UpdateReply::Failed("disk full".to_string()));
    assert_eq!(error_of(&update), "disk full");
}

#[test]
fn update_without_a_later_release_ends() {
    let mut update = do_update("linux", "aarch64");
    assert_eq!(update.phase(), UpdatePhase::Checking);
    update.step(UpdateReply::LatestTag(None));
    assert_eq!(update.phase(), UpdatePhase::Failed);
    assert_eq!(error_of(&update), "Already up to date (v0.5.5)");

    let mut update = do_update("linux", "aarch64");
    update.step(UpdateReply::LatestTag(Some("v0.5.5".to_string())));
    assert_eq!(error_of(&update), "Already up to date (v0.5.5)");

    let mut update = do_update("linux", "aarch64");
    update.step(UpdateReply::LatestTag(Some("v1.0.0".to_string())));
    assert_eq!(update.phase(), UpdatePhase::Downloading);
    assert_eq!(update.version(), "1.0.0");
}

#[test]
fn update_of_another_platform_is_refused() {
    let update = do_update_to(Some("9.9.9"), "macos", "aarch64");
    assert_eq!(update.phase(), UpdatePhase::Failed);
    assert_eq!(error_of(&update), "Unsupported platform: macos-aarch64");
}

#[test]
fn failed_backup_leaves_the_program_alone() {
    let mut update = verified();
    update.step(UpdateReply::Done);
    update.step(UpdateReply::Located("/bin/lego-radio".to_string()));
    update.step(UpdateReply::Done);
    update.step(UpdateReply::Failed("read-only".to_string()));
    assert_eq!(update.phase(), UpdatePhase::Failed);
    assert_eq!(error_of(&update), "read-only");
}

#[test]
fn reply_that_does_not_fit_changes_nothing() {
    let mut update = verified();
    update.step(UpdateReply::Data(b"abc".to_vec()));
    assert_eq!(update.phase(), UpdatePhase::MarkingDownload);
}
