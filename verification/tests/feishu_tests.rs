use sticker_relay::feishu::{
    checksum_for_archive, component_needs_migration, extract_version, is_allowed_download_url,
    release_archive_name_for, retry_delay_seconds, validate_feishu_auth_url, with_latest_release,
    CliResult, DownloadSchedule, FeishuError, ReleaseSpec, DOWNLOAD_ATTEMPTS_PER_SOURCE,
};
use sticker_relay::models::FeishuCliStatus;

#[test]
fn extracts_cli_version() {
    assert_eq!(
        extract_version("lark-cli version 1.0.90"),
        Some("1.0.90".to_string())
    );
}

#[test]
fn validates_only_official_auth_domains() {
    assert!(validate_feishu_auth_url("https://accounts.feishu.cn/open").is_ok());
    assert!(validate_feishu_auth_url("https://open.larksuite.com/auth").is_ok());
    assert!(validate_feishu_auth_url("https://feishu.cn.evil.example/auth").is_err());
    assert!(validate_feishu_auth_url("http://accounts.feishu.cn/auth").is_err());
}

#[test]
fn reads_expected_checksum() {
    let checksum = "a".repeat(64);
    let manifest = format!("{checksum}  lark-cli-1.0.90-windows-amd64.zip\n");
    assert_eq!(
        checksum_for_archive(&manifest, "lark-cli-1.0.90-windows-amd64.zip"),
        Some(checksum)
    );
}

#[test]
fn retries_each_download_source_with_bounded_backoff() {
    assert_eq!(DOWNLOAD_ATTEMPTS_PER_SOURCE, 2);
    assert_eq!(retry_delay_seconds(1), 1);
    assert_eq!(retry_delay_seconds(2), 2);
}

#[test]
fn allows_the_supported_domestic_mirror_redirect() {
    assert!(is_allowed_download_url(
        "https://registry.npmmirror.com/-/binary/lark-cli/file.zip"
    ));
    assert!(is_allowed_download_url(
        "https://cdn.npmmirror.com/binaries/lark-cli/file.zip"
    ));
    assert!(!is_allowed_download_url(
        "https://cdn.npmmirror.com.evil.example/file.zip"
    ));
}

#[test]
fn selects_the_official_archive_for_each_supported_desktop_target() {
    let version = "1.0.90";
    assert_eq!(
        release_archive_name_for(version, "windows", "x86_64").expect("Windows x64 archive"),
        "lark-cli-1.0.90-windows-amd64.zip"
    );
    assert_eq!(
        release_archive_name_for(version, "windows", "aarch64").expect("Windows ARM64 archive"),
        "lark-cli-1.0.90-windows-arm64.zip"
    );
    assert_eq!(
        release_archive_name_for(version, "macos", "x86_64").expect("macOS Intel archive"),
        "lark-cli-1.0.90-darwin-amd64.tar.gz"
    );
    assert_eq!(
        release_archive_name_for(version, "macos", "aarch64").expect("macOS Apple Silicon archive"),
        "lark-cli-1.0.90-darwin-arm64.tar.gz"
    );
}

#[test]
fn rejects_unsupported_cli_targets() {
    let version = "1.0.90";
    assert!(release_archive_name_for(version, "linux", "x86_64").is_err());
    assert!(release_archive_name_for(version, "windows", "x86").is_err());
}

#[test]
fn unsupported_targets_report_which_part_is_missing() {
    assert!(matches!(
        release_archive_name_for("1.0.90", "linux", "x86_64"),
        Err(FeishuError::UnsupportedOs)
    ));
    assert!(matches!(
        release_archive_name_for("1.0.90", "windows", "x86"),
        Err(FeishuError::UnsupportedArch)
    ));
}

#[test]
fn checksum_lines_must_name_the_archive_with_a_full_hex_digest() {
    let short = format!("{}  a.zip\n", "b".repeat(63));
    assert_eq!(checksum_for_archive(&short, "a.zip"), None);
    let upper = format!("{}  a.zip\n", "C".repeat(64));
    assert_eq!(checksum_for_archive(&upper, "a.zip"), Some("c".repeat(64)));
    let other = format!("{}  b.zip\n", "d".repeat(64));
    assert_eq!(checksum_for_archive(&other, "a.zip"), None);
}

#[test]
fn version_falls_back_to_trimmed_output() {
    assert_eq!(extract_version("no version here"), None);
    let result = CliResult {
        code: 0,
        stdout: "  ".to_string(),
        stderr: " build 7 \n".to_string(),
    };
    assert_eq!(sticker_relay::feishu::normalized_version(&result), "build 7");
}

#[test]
fn only_a_usable_older_cli_without_a_current_one_is_migrated() {
    assert!(component_needs_migration(false, true));
    assert!(!component_needs_migration(true, true));
    assert!(!component_needs_migration(false, false));
}

fn status(version: Option<&str>, installed: bool) -> FeishuCliStatus {
    FeishuCliStatus {
        installed,
        version: version.map(|v| v.to_string()),
        authenticated: false,
        detail: None,
        source: None,
        executable_path: None,
        latest_version: None,
        update_available: false,
    }
}

#[test]
fn an_update_is_offered_only_for_an_older_version() {
    let older = with_latest_release(status(Some("1.0.90"), true), "1.0.92");
    assert!(older.update_available);
    assert_eq!(older.latest_version.as_deref(), Some("1.0.92"));
    let same = with_latest_release(status(Some("1.0.92"), true), "1.0.92");
    assert!(!same.update_available);
    let missing = with_latest_release(status(None, false), "1.0.92");
    assert!(missing.update_available);
}

#[test]
fn downloads_try_the_mirror_twice_then_github_twice() {
    let release = ReleaseSpec {
        version: "1.0.90".to_string(),
        archive_name: "lark-cli-1.0.90-windows-amd64.zip".to_string(),
        checksum: "0".repeat(64),
        github_url: "https://github.com/x".to_string(),
        mirror_url: "https://registry.npmmirror.com/x".to_string(),
    };
    let mut schedule = DownloadSchedule::new(&release);
    let mut sources = Vec::new();
    while let Some(attempt) = schedule.next_attempt() {
        sources.push(attempt.url.clone());
        let notice = schedule.record_failure(&attempt, "boom".to_string());
        if attempt.current < 4 {
            let notice = notice.expect("retry");
            assert!(notice.delay_seconds == 1 || notice.delay_seconds == 2);
        } else {
            assert!(notice.is_none());
        }
    }
    assert_eq!(
        sources,
        vec![
            "https://registry.npmmirror.com/x".to_string(),
            "https://registry.npmmirror.com/x".to_string(),
            "https://github.com/x".to_string(),
            "https://github.com/x".to_string(),
        ]
    );
    assert_eq!(schedule.final_error(), "飞书 CLI 下载失败，已尝试 4 次：boom");
}

#[test]
fn a_download_is_accepted_only_with_the_official_digest() {
    let data = b"abc";
    let digest = sticker_relay::digest::sha256_hex_of(data);
    assert_eq!(
        digest,
        "ba7816bf8f01cfea414140de5dae2223b00361a396177a9cb410ff61f20015ad"
    );
    let release = ReleaseSpec {
        version: "1.0.90".to_string(),
        archive_name: "a.zip".to_string(),
        checksum: digest.clone(),
        github_url: "https://github.com/x".to_string(),
        mirror_url: "https://registry.npmmirror.com/x".to_string(),
    };
    let mut schedule = DownloadSchedule::new(&release);
    let attempt = schedule.next_attempt().expect("first attempt");
    assert!(schedule.verify_download(&attempt, data).1.is_ok());
    assert!(schedule.verify_download(&attempt, b"abd").1.is_err());
}
