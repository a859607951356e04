use sticker_relay::feishu::{
    braces_in_order, current_user_target, error_text, finish_login_status, install_progress,
    installed_status, json_candidate, missing_file_outcome, npm_latest_url, package_url,
    parse_login_payload, progress, records_to_send, release_archive, release_spec,
    resolve_destination, self_from_output, send_arguments, send_outcome, status_after_auth,
    status_after_version, unavailable_status, user_identity_state, validate_feishu_auth_url,
    CliLocation, CliResult,
    DestinationStep, DownloadSchedule, FeishuCli, FeishuError, InstallStep, LoginProgress, ReleaseSpec,
    SendBatch, SendOutcome,
};
use sticker_relay::feishu::{accept_chunk, check_download_end, check_download_start};
use sticker_relay::json::{JsonNumber, JsonValue};
use sticker_relay::models::{FeishuCliStatus, FeishuDestination, FeishuSendState, StickerRecord};

fn text(s: &str) -> JsonValue {
    JsonValue::Text(s.to_string())
}

fn number(n: u64) -> JsonValue {
    JsonValue::Number(JsonNumber { as_u64: Some(n), as_i64: Some(n as i64), text: n.to_string() })
}

fn object(members: Vec<(&str, JsonValue)>) -> JsonValue {
    JsonValue::Object(members.into_iter().map(|(k, v)| (k.to_string(), v)).collect())
}

fn run(code: i32, stdout: &str, stderr: &str) -> CliResult {
    CliResult { code, stdout: stdout.to_string(), stderr: stderr.to_string() }
}

fn record(id: &str, state: FeishuSendState) -> StickerRecord {
    StickerRecord {
        id: id.to_string(),
        sha256: format!("sha-{id}"),
        wechat_md5: None,
        filename: format!("{id}.png"),
        mime_type: "image/png".to_string(),
        bytes: 10,
        source_url: None,
        imported_at: 1,
        feishu_state: state,
        feishu_message_id: None,
        error_message: None,
    }
}

fn location() -> CliLocation {
    CliLocation { path: "/opt/lark-cli".to_string(), source: "managed".to_string() }
}

#[test]
fn failed_commands_are_explained_by_their_output() {
    assert_eq!(error_text(&run(1, "out", "  bad\n\n  thing  ")), "bad thing");
    assert_eq!(error_text(&run(1, " a \t b ", "   ")), "a b");
    assert_eq!(error_text(&run(-3, " ", "")), "lark-cli 退出码 -3");
    let long = "x".repeat(600);
    assert_eq!(error_text(&run(2, "", &long)).chars().count(), 500);
}

#[test]
fn login_payloads_need_a_device_code_and_an_official_url() {
    assert!(matches!(parse_login_payload(None, 0), Err(FeishuError::MissingDeviceCode)));
    let no_url = object(vec![("device_code", text("dc"))]);
    assert!(matches!(
        parse_login_payload(Some(&no_url), 0),
        Err(FeishuError::MissingVerificationUrl)
    ));
    let foreign = object(vec![
        ("device_code", text("dc")),
        ("verification_uri_complete", text("https://evil.example/auth")),
    ]);
    assert!(matches!(
        parse_login_payload(Some(&foreign), 0),
        Err(FeishuError::MissingVerificationUrl)
    ));
    let nested = object(vec![(
        "data",
        object(vec![
            ("deviceCode", text("dc-1")),
            ("verificationUriComplete", text("https://accounts.feishu.cn/oauth?user_code=ABCD-1234")),
            ("expires_in", number(600)),
        ]),
    )]);
    let pending = parse_login_payload(Some(&nested), 5_000).expect("pending login");
    assert_eq!(pending.device_code, "dc-1");
    assert_eq!(pending.session.stage, "authorize");
    assert_eq!(pending.session.verification_url, "https://accounts.feishu.cn/oauth?user_code=ABCD-1234");
    assert_eq!(pending.session.user_code.as_deref(), Some("ABCD-1234"));
    assert_eq!(pending.session.expires_at, Some(605_000));
    let saturating = object(vec![
        ("device_code", text("dc")),
        ("verification_url", text("https://open.larksuite.com/x")),
        ("user_code", text("U")),
        ("expiresIn", number(u64::MAX)),
    ]);
    let pending = parse_login_payload(Some(&saturating), 1).expect("pending login");
    assert_eq!(pending.session.user_code.as_deref(), Some("U"));
    assert_eq!(pending.session.expires_at, Some(u64::MAX));
}

#[test]
fn the_user_identity_is_read_from_auth_status() {
    assert_eq!(user_identity_state(None), (None, None));
    let ready = object(vec![(
        "identities",
        object(vec![("user", object(vec![("status", text("READY")), ("hint", text("ok"))]))]),
    )]);
    assert_eq!(user_identity_state(Some(&ready)), (Some(true), Some("ok".to_string())));
    let denied = object(vec![(
        "identities",
        object(vec![(
            "user",
            object(vec![
                ("available", JsonValue::Bool(false)),
                ("status", text("ready")),
                ("message", text("run auth login")),
                ("hint", text("ignored")),
            ]),
        )]),
    )]);
    assert_eq!(user_identity_state(Some(&denied)), (Some(false), Some("run auth login".to_string())));
}

#[test]
fn the_version_run_decides_whether_the_cli_is_installed() {
    let failed = status_after_version(&location(), &Err("spawn failed".to_string())).expect_err("not installed");
    assert!(!failed.installed);
    assert_eq!(failed.detail.as_deref(), Some("spawn failed"));
    assert_eq!(failed.executable_path.as_deref(), Some("/opt/lark-cli"));
    assert_eq!(failed.source.as_deref(), Some("managed"));
    let exited = status_after_version(&location(), &Ok(run(1, "", "boom"))).expect_err("not installed");
    assert_eq!(exited.detail.as_deref(), Some("boom"));
    let version = status_after_version(&location(), &Ok(run(0, "lark-cli version 1.0.92\n", ""))).expect("version");
    assert_eq!(version, "1.0.92");
}

#[test]
fn the_auth_run_decides_whether_the_user_is_connected() {
    let json = object(vec![("identities", object(vec![("user", object(vec![("available", JsonValue::Bool(true))]))]))]);
    let ok = status_after_auth(&location(), "1.0.92".to_string(), &Ok(run(0, "{}", "")), Some(&json));
    assert!(ok.installed && ok.authenticated);
    assert_eq!(ok.detail.as_deref(), Some("飞书 CLI 用户身份已登录"));
    assert_eq!(ok.version.as_deref(), Some("1.0.92"));
    let expired = status_after_auth(&location(), "1.0.92".to_string(), &Ok(run(0, "token Expired", "")), Some(&json));
    assert!(expired.installed && !expired.authenticated);
    assert_eq!(expired.detail.as_deref(), Some("token Expired"));
    let not_json = status_after_auth(&location(), "1.0.92".to_string(), &Ok(run(0, "fine", "")), None);
    assert!(!not_json.authenticated);
    let unreachable = status_after_auth(&location(), "1.0.92".to_string(), &Err("timeout".to_string()), None);
    assert!(unreachable.installed && !unreachable.authenticated);
    assert_eq!(unreachable.detail.as_deref(), Some("timeout"));
}

#[test]
fn the_cli_is_looked_for_in_order() {
    let cli = FeishuCli::new("/data/lark-cli".to_string(), vec!["/old/lark-cli".to_string(), "/res/lark-cli".to_string()]);
    assert_eq!(cli.managed_executable(false), "/data/lark-cli/lark-cli");
    assert_eq!(
        cli.executable_candidates(true),
        vec!["/data/lark-cli\\lark-cli.exe".to_string(), "/old/lark-cli".to_string(), "/res/lark-cli".to_string()]
    );
    let managed = cli.resolve_executable(false, &[true, true, true], None).expect("managed");
    assert_eq!((managed.path.as_str(), managed.source.as_str()), ("/data/lark-cli/lark-cli", "managed"));
    let legacy = cli.resolve_executable(false, &[false, false, true], None).expect("legacy");
    assert_eq!((legacy.path.as_str(), legacy.source.as_str()), ("/res/lark-cli", "bundled-legacy"));
    let path = cli.resolve_executable(false, &[false, false, false], Some("/usr/bin/lark-cli".to_string())).expect("path");
    assert_eq!((path.path.as_str(), path.source.as_str()), ("/usr/bin/lark-cli", "path"));
    assert!(cli.resolve_executable(false, &[false, false, false], None).is_none());
    let missing = cli.missing_cli_status();
    assert!(!missing.installed);
    assert_eq!(
        missing.detail.as_deref(),
        Some("尚未安装飞书官方连接组件。点击“下载官方组件”后会保存到：/data/lark-cli")
    );
    let unavailable = unavailable_status("why".to_string());
    assert!(!unavailable.installed && unavailable.detail.as_deref() == Some("why"));
}

#[test]
fn one_authorization_is_pending_at_a_time() {
    let mut cli = FeishuCli::new("/data".to_string(), Vec::new());
    assert!(cli.pending_login_url().is_none());
    assert!(matches!(cli.pending_device_code(), Err(FeishuError::NoPendingLogin)));
    assert!(matches!(
        cli.start_login(&run(1, "", "denied"), None, 0),
        Err(FeishuError::Command(t)) if t == "denied"
    ));
    let payload = object(vec![
        ("device_code", text("dc")),
        ("verification_uri", text("https://accounts.feishu.cn/a")),
    ]);
    let session = cli.start_login(&run(0, "", ""), Some(&payload), 10).expect("session");
    assert_eq!(session.verification_url, "https://accounts.feishu.cn/a");
    assert_eq!(cli.pending_login_url().as_deref(), Some("https://accounts.feishu.cn/a"));
    assert_eq!(cli.pending_device_code().expect("device code"), "dc");
    assert!(matches!(cli.complete_login(&run(1, "", "slow down"), None, 0), Err(FeishuError::Command(t)) if t == "slow down"));
    assert!(cli.pending_login_url().is_some());
    assert!(matches!(cli.complete_login(&run(0, "", ""), None, 0), Ok(LoginProgress::Authorized)));
    assert!(cli.pending_login_url().is_none());
    cli.start_login(&run(0, "", ""), Some(&payload), 10).expect("session");
    cli.cancel_login();
    assert!(cli.pending_login_url().is_none());
}

#[test]
fn one_batch_is_sent_at_a_time() {
    let mut cli = FeishuCli::new("/data".to_string(), Vec::new());
    assert!(cli.begin_sending().is_ok());
    assert!(matches!(cli.begin_sending(), Err(FeishuError::AlreadySending)));
    cli.end_sending();
    assert!(cli.begin_sending().is_ok());
}

#[test]
fn a_finished_login_must_leave_the_user_connected() {
    let mut status = unavailable_status("still waiting".to_string());
    assert!(matches!(finish_login_status(status.clone()), Err(FeishuError::Command(t)) if t == "still waiting"));
    status.detail = None;
    assert!(matches!(finish_login_status(status.clone()), Err(FeishuError::Command(t)) if t == "飞书授权尚未完成"));
    status.authenticated = true;
    assert!(finish_login_status(status).is_ok());
}

#[test]
fn the_current_user_needs_an_open_id() {
    let me = object(vec![("data", object(vec![("openId", text("ou_1")), ("display_name", text("Me"))]))]);
    let found = self_from_output(&run(0, "", ""), Some(&me)).expect("self");
    assert_eq!(found.open_id, "ou_1");
    assert_eq!(found.name.as_deref(), Some("Me"));
    assert!(matches!(self_from_output(&run(0, "", ""), Some(&text("x"))), Err(FeishuError::MissingOpenId)));
    assert!(matches!(self_from_output(&run(4, "", "nope"), Some(&me)), Err(FeishuError::Command(t)) if t == "nope"));
}

#[test]
fn releases_name_their_archive_and_download_places() {
    assert_eq!(npm_latest_url(), "https://registry.npmjs.org/@larksuite%2fcli/latest");
    assert_eq!(package_url("1.0.92"), "https://registry.npmjs.org/@larksuite/cli/-/cli-1.0.92.tgz");
    assert_eq!(
        release_archive(" 1.0.92 ", "macos", "aarch64").expect("archive"),
        ("1.0.92".to_string(), "lark-cli-1.0.92-darwin-arm64.tar.gz".to_string())
    );
    assert!(matches!(release_archive("v1", "macos", "aarch64"), Err(FeishuError::InvalidVersion)));
    assert!(matches!(release_archive("1.0.92", "linux", "aarch64"), Err(FeishuError::UnsupportedOs)));
    let digest = "AB".repeat(32);
    let list = format!("{digest}  lark-cli-1.0.92-darwin-arm64.tar.gz\n");
    let spec = release_spec("1.0.92".to_string(), "lark-cli-1.0.92-darwin-arm64.tar.gz".to_string(), 100, &list)
        .expect("release");
    assert_eq!(spec.checksum, "ab".repeat(32));
    assert_eq!(
        spec.github_url,
        "https://github.com/larksuite/cli/releases/download/v1.0.92/lark-cli-1.0.92-darwin-arm64.tar.gz"
    );
    assert_eq!(
        spec.mirror_url,
        "https://registry.npmmirror.com/-/binary/lark-cli/v1.0.92/lark-cli-1.0.92-darwin-arm64.tar.gz"
    );
    assert!(matches!(
        release_spec("1.0.92".to_string(), "other.zip".to_string(), 100, &list),
        Err(FeishuError::MissingChecksum(n)) if n == "other.zip"
    ));
    assert!(matches!(
        release_spec("1.0.92".to_string(), "a".to_string(), 5 * 1024 * 1024 + 1, &list),
        Err(FeishuError::Command(t)) if t == "飞书 CLI 校验元数据异常过大"
    ));
}

#[test]
fn downloads_are_checked_as_they_arrive() {
    assert!(check_download_start("https://cdn.npmmirror.com/a.zip", Some(10)).is_ok());
    assert_eq!(
        check_download_start("https://example.com/a.zip", None).expect_err("redirect"),
        "下载被重定向到非官方地址"
    );
    assert_eq!(
        check_download_start("https://github.com/a.zip", Some(200 * 1024 * 1024 + 1)).expect_err("large"),
        "飞书 CLI 下载文件异常过大"
    );
    assert!(accept_chunk(200 * 1024 * 1024 - 5, 5).is_ok());
    assert_eq!(accept_chunk(200 * 1024 * 1024 - 5, 6).expect_err("limit"), "飞书 CLI 下载文件超过安全大小限制");
    assert_eq!(check_download_end(0).expect_err("empty"), "飞书 CLI 下载结果为空");
    assert!(check_download_end(1).is_ok());
}

#[test]
fn download_reports_name_the_source() {
    let release = ReleaseSpec {
        version: "1.0.92".to_string(),
        archive_name: "a.zip".to_string(),
        checksum: "0".repeat(64),
        github_url: "https://github.com/x".to_string(),
        mirror_url: "https://registry.npmmirror.com/x".to_string(),
    };
    let mut schedule = DownloadSchedule::new(&release);
    let attempt = schedule.next_attempt().expect("attempt");
    let started = DownloadSchedule::attempt_started(&attempt);
    assert_eq!(started.stage, "downloading");
    assert_eq!(started.message, "正在从 国内加速线路 下载飞书官方组件…");
    assert_eq!((started.attempt, started.max_attempts), (Some(1), Some(4)));
    let partway = DownloadSchedule::attempt_progress(&attempt, 7, Some(9));
    assert_eq!((partway.downloaded, partway.total), (7, Some(9)));
    let notice = schedule.record_failure(&attempt, "timeout".to_string()).expect("retry");
    assert_eq!(notice.delay_seconds, 1);
    assert_eq!(notice.progress.message, "第 1/4 次失败：timeout。1 秒后尝试 国内加速线路…");
}

#[test]
fn destinations_are_trimmed_and_must_not_be_blank() {
    assert!(matches!(resolve_destination(&FeishuDestination::SelfTarget), Ok(DestinationStep::CurrentUser)));
    assert!(matches!(
        resolve_destination(&FeishuDestination::User { id: "  ou_2 ".to_string() }),
        Ok(DestinationStep::Target(f, t)) if f == "--user-id" && t == "ou_2"
    ));
    assert!(matches!(
        resolve_destination(&FeishuDestination::Chat { id: "oc_3".to_string() }),
        Ok(DestinationStep::Target(f, t)) if f == "--chat-id" && t == "oc_3"
    ));
    assert!(matches!(resolve_destination(&FeishuDestination::User { id: " ".to_string() }), Err(FeishuError::EmptyUser)));
    assert!(matches!(resolve_destination(&FeishuDestination::Chat { id: String::new() }), Err(FeishuError::EmptyChat)));
    assert!(matches!(current_user_target("ou_1".to_string()), DestinationStep::Target(f, t) if f == "--user-id" && t == "ou_1"));
}

#[test]
fn each_sticker_is_sent_as_the_user_once() {
    assert_eq!(
        send_arguments("--user-id", "ou_1", "abc.png", "r1"),
        vec![
            "im", "+messages-send", "--as", "user", "--user-id", "ou_1", "--image", "./abc.png",
            "--idempotency-key", "wxsticker-r1", "--format", "json",
        ]
    );
    let reply = object(vec![("data", object(vec![("message_id", text("om_1"))]))]);
    assert!(matches!(send_outcome(&run(0, "", ""), Some(&reply)), SendOutcome::Sent(Some(id)) if id == "om_1"));
    assert!(matches!(send_outcome(&run(0, "", ""), None), SendOutcome::Sent(None)));
    assert!(matches!(send_outcome(&run(1, "", "quota"), None), SendOutcome::Failed(m) if m == "quota"));
    assert!(matches!(missing_file_outcome(), SendOutcome::Failed(m) if m == "本地表情文件不存在"));
}

#[test]
fn pending_sends_skip_stickers_already_sent() {
    let listed = vec![
        record("a", FeishuSendState::Sent),
        record("b", FeishuSendState::Failed),
        record("c", FeishuSendState::Pending),
    ];
    let ids = |v: Vec<StickerRecord>| v.into_iter().map(|r| r.id).collect::<Vec<_>>();
    assert_eq!(ids(records_to_send(listed.clone(), true)), vec!["b", "c"]);
    assert_eq!(ids(records_to_send(listed, false)), vec!["a", "b", "c"]);
}

#[test]
fn a_batch_counts_sent_and_failed_stickers() {
    let (mut batch, opening) = SendBatch::new(2);
    assert!(!opening.done && opening.total == 2);
    let first = batch.record(&record("a", FeishuSendState::Sending), &SendOutcome::Sent(None));
    assert_eq!((first.current, first.sent, first.failed, first.done), (1, 1, 0, false));
    assert_eq!(first.message.as_deref(), Some("已发送"));
    assert!(batch.pause_after());
    let second = batch.record(&record("b", FeishuSendState::Sending), &SendOutcome::Failed("x".to_string()));
    assert_eq!((second.current, second.sent, second.failed, second.done), (2, 1, 1, true));
    assert_eq!(second.sticker_id.as_deref(), Some("b"));
    assert!(!batch.pause_after());
    assert!(SendBatch::new(0).1.done);
    let aborted = SendBatch::aborted(3, "no cli".to_string());
    assert_eq!((aborted.failed, aborted.done, aborted.message.as_deref()), (3, true, Some("no cli")));
    let report = progress(1, 2, &record("z", FeishuSendState::Sent), 1, 0, "m", false);
    assert_eq!(report.sticker_id.as_deref(), Some("z"));
}

#[test]
fn install_steps_are_reported() {
    assert_eq!(install_progress(InstallStep::Resolving, "1.0.92", 0).stage, "resolving");
    assert_eq!(install_progress(InstallStep::Downloading, "1.0.92", 0).message, "正在下载飞书 CLI 1.0.92…");
    let installing = install_progress(InstallStep::Installing, "1.0.92", 42);
    assert_eq!((installing.downloaded, installing.total), (42, Some(42)));
    let done = install_progress(InstallStep::Done, "1.0.92", 42);
    assert!(done.done);
    assert_eq!(done.message, "飞书 CLI 1.0.92 已安装并通过 SHA-256 校验");
    let status = FeishuCliStatus { update_available: true, ..unavailable_status("x".to_string()) };
    let after = installed_status(status, "1.0.92");
    assert!(!after.update_available);
    assert_eq!(after.latest_version.as_deref(), Some("1.0.92"));
}

#[test]
fn cli_output_is_read_between_its_outer_braces() {
    assert!(braces_in_order("log {\"a\": 1} done"));
    assert!(!braces_in_order("} then {"));
    assert!(braces_in_order("no braces"));
    assert_eq!(json_candidate("log {\"a\": {\"b\": 1}} done").as_deref(), Some("{\"a\": {\"b\": 1}}"));
    assert_eq!(json_candidate("just {"), None);
}

#[test]
fn errors_have_messages() {
    assert_eq!(FeishuError::UnsupportedOs.message(), "当前系统暂不支持自动安装飞书 CLI");
    assert_eq!(FeishuError::MissingChecksum("a.zip".to_string()).message(), "飞书官方校验清单缺少 a.zip");
    assert_eq!(FeishuError::Command("boom".to_string()).message(), "boom");
    assert_eq!(
        FeishuError::NoPendingLogin.message(),
        "当前没有待完成的飞书授权，请重新点击“连接飞书”"
    );
}

#[test]
fn an_unconfigured_cli_is_configured_before_account_authorization() {
    let mut cli = FeishuCli::new("/data".to_string(), Vec::new());
    let start = object(vec![
        ("device_code", text("dc-1")),
        ("verification_uri", text("https://accounts.feishu.cn/a")),
    ]);
    cli.start_login(&run(0, "", ""), Some(&start), 0).expect("authorization step");
    let answer = object(vec![
        ("status", text("not_configured")),
        ("device_code", text("dc-2")),
        ("verification_url", text("https://open.feishu.cn/page/cli-config")),
    ]);
    let progress = cli
        .complete_login(&run(1, "{\"status\":\"not_configured\"}", ""), Some(&answer), 10)
        .expect("configuration step");
    let session = match progress {
        LoginProgress::Configure(session) => session,
        other => panic!("unexpected {:?}", other),
    };
    assert_eq!(session.stage, "configure");
    assert_eq!(session.verification_url, "https://open.feishu.cn/page/cli-config");
    assert!(validate_feishu_auth_url(&session.verification_url).is_ok());
    assert_eq!(cli.pending_login_url().as_deref(), Some("https://open.feishu.cn/page/cli-config"));
    assert_eq!(cli.pending_device_code().expect("device code"), "dc-2");
    assert!(matches!(cli.complete_login(&run(0, "", ""), None, 20), Ok(LoginProgress::AuthorizeNext)));
    assert!(cli.pending_login_url().is_none());
    let foreign = object(vec![
        ("device_code", text("dc-3")),
        ("verification_url", text("https://evil.example/config")),
    ]);
    cli.start_login(&run(0, "", ""), Some(&start), 0).expect("authorization step");
    assert!(matches!(
        cli.complete_login(&run(1, "", "error: not_configured"), Some(&foreign), 0),
        Err(FeishuError::MissingVerificationUrl)
    ));
    assert_eq!(cli.pending_login_url().as_deref(), Some("https://accounts.feishu.cn/a"));
}
