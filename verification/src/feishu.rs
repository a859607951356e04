use vstd::prelude::*;
use crate::digest::{sha256_hex, sha256_hex_of};
use crate::json::{
    bool_spec, deep_number, deep_string, direct_string, member, find_deep_number, find_deep_string, get_spec, key_views,
    opt_text, str_spec, JsonValue,
};
use crate::models::{
    FeishuCliProgress, FeishuCliStatus, FeishuDestination, FeishuLoginSession, FeishuSendProgress,
    FeishuSendState, StickerRecord,
};
use crate::patterns::{regex_find, regex_first_match};
use crate::store::{join_path, joined};
use crate::text::{
    ascii_lowercase, char_vecs, chars_of, collapse_whitespace, concat, contains, ends_with,
    i64_to_decimal, is_ws, join_with, lines, owned, prefix_chars, signed_decimal, split_lines,
    split_words, str_contains, str_ends_with, str_eq, string_from, take_chars, to_ascii_lowercase,
    to_lowercase, trim, trim_str, unicode_lowercase, words,
};
use crate::web::{
    parse_url, UrlParts, url_host, url_parses, url_password, url_port, url_query_pairs,
    url_scheme, url_username,
};

verus! {

/// How many times each download source is tried.
pub const DOWNLOAD_ATTEMPTS_PER_SOURCE: usize = 2;

/// Largest npm package read for the checksum list, in bytes.
pub const MAX_METADATA_BYTES: usize = 5242880;

/// Largest CLI archive accepted, in bytes.
pub const MAX_ARCHIVE_BYTES: usize = 209715200;

/// Why a Feishu CLI operation was refused.
#[derive(Debug, Clone)]
pub enum FeishuError {
    /// The operating system has no official CLI archive.
    UnsupportedOs,
    /// The CPU architecture has no official CLI archive.
    UnsupportedArch,
    /// The authorization address is not a URL.
    AuthUrlMalformed,
    /// The authorization address is not plain HTTPS on the default port.
    AuthUrlInsecure,
    /// The authorization address is not on an official Feishu or Lark domain.
    AuthUrlNotOfficial,
    /// The CLI did not report a device code.
    MissingDeviceCode,
    /// The CLI did not report an acceptable authorization address.
    MissingVerificationUrl,
    /// The official version number is not a semantic version.
    InvalidVersion,
    /// The official checksum list has no entry for the archive.
    MissingChecksum(String),
    /// The user chosen as recipient is blank.
    EmptyUser,
    /// The chat chosen as recipient is blank.
    EmptyChat,
    /// A batch is already being sent.
    AlreadySending,
    /// No authorization is waiting to be finished.
    NoPendingLogin,
    /// The CLI reported no `open_id` for the current user.
    MissingOpenId,
    /// A CLI command failed; the text is what it reported.
    Command(String),
}

/// The message shown for an error.
pub open spec fn feishu_error_text(e: FeishuError) -> Seq<char> {
    match e {
        FeishuError::UnsupportedOs => "当前系统暂不支持自动安装飞书 CLI"@,
        FeishuError::UnsupportedArch => "当前 CPU 架构暂不支持自动安装飞书 CLI"@,
        FeishuError::AuthUrlMalformed => "飞书授权地址格式无效"@,
        FeishuError::AuthUrlInsecure => "飞书授权地址未通过安全校验"@,
        FeishuError::AuthUrlNotOfficial => "飞书授权地址不属于飞书官方域名"@,
        FeishuError::MissingDeviceCode => "飞书连接组件未返回 device_code"@,
        FeishuError::MissingVerificationUrl => "飞书连接组件未返回有效的官方授权地址，请稍后重试"@,
        FeishuError::InvalidVersion => "飞书官方版本号格式无效"@,
        FeishuError::MissingChecksum(name) => "飞书官方校验清单缺少 "@ + name@,
        FeishuError::EmptyUser => "飞书接收用户不能为空"@,
        FeishuError::EmptyChat => "飞书接收群聊不能为空"@,
        FeishuError::AlreadySending => "已有飞书发送任务正在运行"@,
        FeishuError::NoPendingLogin => "当前没有待完成的飞书授权，请重新点击“连接飞书”"@,
        FeishuError::MissingOpenId => "飞书 CLI 未返回当前用户 open_id，请重新连接飞书"@,
        FeishuError::Command(text) => text@,
    }
}

impl FeishuError {
    /// The message shown to the user.
    pub fn message(&self) -> (r: String)
        ensures
            r@ == feishu_error_text(*self),
    {
        match self {
            FeishuError::UnsupportedOs => owned("当前系统暂不支持自动安装飞书 CLI"),
            FeishuError::UnsupportedArch => owned("当前 CPU 架构暂不支持自动安装飞书 CLI"),
            FeishuError::AuthUrlMalformed => owned("飞书授权地址格式无效"),
            FeishuError::AuthUrlInsecure => owned("飞书授权地址未通过安全校验"),
            FeishuError::AuthUrlNotOfficial => owned("飞书授权地址不属于飞书官方域名"),
            FeishuError::MissingDeviceCode => owned("飞书连接组件未返回 device_code"),
            FeishuError::MissingVerificationUrl => owned("飞书连接组件未返回有效的官方授权地址，请稍后重试"),
            FeishuError::InvalidVersion => owned("飞书官方版本号格式无效"),
            FeishuError::MissingChecksum(name) => concat("飞书官方校验清单缺少 ", name.as_str()),
            FeishuError::EmptyUser => owned("飞书接收用户不能为空"),
            FeishuError::EmptyChat => owned("飞书接收群聊不能为空"),
            FeishuError::AlreadySending => owned("已有飞书发送任务正在运行"),
            FeishuError::NoPendingLogin => owned("当前没有待完成的飞书授权，请重新点击“连接飞书”"),
            FeishuError::MissingOpenId => owned("飞书 CLI 未返回当前用户 open_id，请重新连接飞书"),
            FeishuError::Command(text) => text.clone(),
        }
    }
}

// ------------------------------------------------------------------
// Download retry delays and release archives
// ------------------------------------------------------------------

/// Seconds to wait before the next try after the `source_attempt`-th try of a source failed.
pub open spec fn retry_delay_spec(source_attempt: usize) -> u64 {
    if source_attempt <= 1 { 1 } else { 2 }
}

/// Back-off before retrying: one second after a first failure, two after later ones.
pub fn retry_delay_seconds(source_attempt: usize) -> (r: u64)
    ensures
        r == retry_delay_spec(source_attempt),
        1 <= r <= 2,
{
    if source_attempt <= 1 {
        1
    } else {
        2
    }
}

/// The platform part of an official archive name for a Rust `std::env::consts::OS` value.
pub open spec fn archive_platform(os: Seq<char>) -> Option<Seq<char>> {
    if os == "windows"@ {
        Some("windows"@)
    } else if os == "macos"@ {
        Some("darwin"@)
    } else {
        None
    }
}

/// The architecture part of an official archive name for a Rust `std::env::consts::ARCH` value.
pub open spec fn archive_arch(arch: Seq<char>) -> Option<Seq<char>> {
    if arch == "x86_64"@ {
        Some("amd64"@)
    } else if arch == "aarch64"@ {
        Some("arm64"@)
    } else {
        None
    }
}

/// The official archive name: `lark-cli-{version}-{platform}-{arch}.zip` on
/// Windows, `.tar.gz` elsewhere.
pub open spec fn archive_name_spec(version: Seq<char>, platform: Seq<char>, arch: Seq<char>) -> Seq<char> {
    "lark-cli-"@ + version + "-"@ + platform + "-"@ + arch + (if platform == "windows"@ {
        ".zip"@
    } else {
        ".tar.gz"@
    })
}

/// The official CLI archive for a version and a desktop target.
pub fn release_archive_name_for(version: &str, os: &str, architecture: &str) -> (r: Result<String, FeishuError>)
    ensures
        archive_platform(os@) is None ==> r matches Err(FeishuError::UnsupportedOs),
        archive_platform(os@) is Some && archive_arch(architecture@) is None ==> r matches Err(
            FeishuError::UnsupportedArch,
        ),
        archive_platform(os@) is Some && archive_arch(architecture@) is Some ==> (r matches Ok(name)
            && name@ == archive_name_spec(version@, archive_platform(os@)->0, archive_arch(architecture@)->0)),
{
    let platform = if str_eq(os, "windows") {
        "windows"
    } else if str_eq(os, "macos") {
        "darwin"
    } else {
        return Err(FeishuError::UnsupportedOs);
    };
    let arch = if str_eq(architecture, "x86_64") {
        "amd64"
    } else if str_eq(architecture, "aarch64") {
        "arm64"
    } else {
        return Err(FeishuError::UnsupportedArch);
    };
    let extension = if str_eq(platform, "windows") {
        ".zip"
    } else {
        ".tar.gz"
    };
    let name = concat("lark-cli-", version);
    let name = concat(name.as_str(), "-");
    let name = concat(name.as_str(), platform);
    let name = concat(name.as_str(), "-");
    let name = concat(name.as_str(), arch);
    Ok(concat(name.as_str(), extension))
}

/// An ASCII hexadecimal digit.
pub open spec fn is_hex_digit(c: char) -> bool {
    ('0' <= c && c <= '9') || ('a' <= c && c <= 'f') || ('A' <= c && c <= 'F')
}

/// The checksum a `checksums.txt` line gives for `archive_name`: the line's
/// first field, when its second field is the archive name and the first is
/// 64 hexadecimal digits; lower-cased.
pub open spec fn line_checksum(line: Seq<char>, archive_name: Seq<char>) -> Option<Seq<char>> {
    let fields = words(line);
    if fields.len() >= 2 && fields[1] == archive_name && fields[0].len() == 64
        && forall|i: int| 0 <= i < 64 ==> is_hex_digit(#[trigger] fields[0][i]) {
        Some(ascii_lowercase(fields[0]))
    } else {
        None
    }
}

/// The checksum of the first line that gives one for `archive_name`.
pub open spec fn first_checksum(ls: Seq<Seq<char>>, archive_name: Seq<char>) -> Option<Seq<char>>
    decreases ls.len(),
{
    if ls.len() == 0 {
        None
    } else if line_checksum(ls[0], archive_name) is Some {
        line_checksum(ls[0], archive_name)
    } else {
        first_checksum(ls.drop_first(), archive_name)
    }
}

fn checksum_of_line(line: &[char], archive_name: &str) -> (r: Option<String>)
    ensures
        opt_text(r) == line_checksum(line@, archive_name@),
{
    let fields = split_words(line);
    if fields.len() < 2 {
        return None;
    }
    let name_chars = chars_of(archive_name);
    assert(char_vecs(fields@)[1] == fields@[1]@);
    assert(char_vecs(fields@)[0] == fields@[0]@);
    if !crate::text::chars_eq(fields[1].as_slice(), name_chars.as_slice()) {
        return None;
    }
    let checksum = &fields[0];
    assert(words(line@)[0] == checksum@);
    if checksum.len() != 64 {
        return None;
    }
    let mut i: usize = 0;
    while i < 64
        invariant
            i <= 64,
            checksum.len() == 64,
            words(line@)[0] == checksum@,
            forall|j: int| 0 <= j < i ==> is_hex_digit(#[trigger] checksum@[j]),
        decreases 64 - i,
    {
        let c = checksum[i];
        if !(('0' <= c && c <= '9') || ('a' <= c && c <= 'f') || ('A' <= c && c <= 'F')) {
            assert(words(line@)[0][i as int] == c);
            assert(!is_hex_digit(words(line@)[0][i as int]));
            return None;
        }
        i = i + 1;
    }
    let text = string_from(checksum.as_slice());
    Some(to_ascii_lowercase(text.as_str()))
}

/// The official checksum of `archive_name` in the text of `checksums.txt`:
/// the first line that names it with a 64-digit hexadecimal digest.
pub fn checksum_for_archive(checksums: &str, archive_name: &str) -> (r: Option<String>)
    ensures
        opt_text(r) == first_checksum(lines(checksums@), archive_name@),
{
    let cs = chars_of(checksums);
    let ls = split_lines(cs.as_slice());
    let ghost all = char_vecs(ls@);
    let mut i: usize = 0;
    assert(all.skip(0) == all);
    while i < ls.len()
        invariant
            i <= ls.len(),
            all == char_vecs(ls@),
            all == lines(checksums@),
            first_checksum(all, archive_name@) == first_checksum(all.skip(i as int), archive_name@),
        decreases ls.len() - i,
    {
        assert(all.skip(i as int).drop_first() == all.skip(i + 1));
        assert(all.skip(i as int)[0] == ls@[i as int]@);
        let found = checksum_of_line(ls[i].as_slice(), archive_name);
        if found.is_some() {
            return found;
        }
        i = i + 1;
    }
    None
}

// ------------------------------------------------------------------
// Output of CLI commands
// ------------------------------------------------------------------

/// What a finished CLI command reported.
#[derive(Debug)]
pub struct CliResult {
    pub code: i32,
    pub stdout: String,
    pub stderr: String,
}

/// The text used to explain a failed command: standard error if it holds
/// more than white space, else standard output, else `lark-cli 退出码 {code}`;
/// white space collapsed to single spaces, at most 500 characters.
pub open spec fn error_text_spec(code: i32, stdout: Seq<char>, stderr: Seq<char>) -> Seq<char> {
    if trim(stderr).len() > 0 {
        take_chars(join_with(words(stderr), " "@), 500)
    } else if trim(stdout).len() > 0 {
        take_chars(join_with(words(stdout), " "@), 500)
    } else {
        "lark-cli 退出码 "@ + signed_decimal(code as int)
    }
}

/// How a failed command is explained to the user.
pub fn error_text(result: &CliResult) -> (r: String)
    ensures
        r@ == error_text_spec(result.code, result.stdout@, result.stderr@),
{
    let stderr_trimmed = trim_str(result.stderr.as_str());
    let stdout_trimmed = trim_str(result.stdout.as_str());
    let raw = if !stderr_trimmed.as_str().is_empty() {
        result.stderr.as_str()
    } else if !stdout_trimmed.as_str().is_empty() {
        result.stdout.as_str()
    } else {
        let code = i64_to_decimal(result.code as i64);
        return concat("lark-cli 退出码 ", code.as_str());
    };
    let collapsed = collapse_whitespace(raw);
    prefix_chars(collapsed.as_str(), 500)
}

/// The pattern of a semantic version inside CLI output.
pub open spec fn version_pattern() -> Seq<char> {
    "\\b\\d+\\.\\d+\\.\\d+(?:-[0-9A-Za-z.-]+)?\\b"@
}

/// The first semantic version (`1.2.3` or `1.2.3-pre`) appearing in `raw`.
pub fn extract_version(raw: &str) -> (r: Option<String>)
    ensures
        opt_text(r) == regex_first_match(version_pattern(), raw@),
{
    regex_find("\\b\\d+\\.\\d+\\.\\d+(?:-[0-9A-Za-z.-]+)?\\b", raw)
}

/// The version the CLI reports: read from standard output (standard error
/// when the output is blank), the semantic version in it or else the whole text trimmed.
pub open spec fn normalized_version_spec(stdout: Seq<char>, stderr: Seq<char>) -> Seq<char> {
    let raw = if trim(stdout).len() == 0 { stderr } else { stdout };
    match regex_first_match(version_pattern(), raw) {
        Some(v) => v,
        None => trim(raw),
    }
}

/// The version text of a `--version` run.
pub fn normalized_version(result: &CliResult) -> (r: String)
    ensures
        r@ == normalized_version_spec(result.stdout@, result.stderr@),
{
    let stdout_trimmed = trim_str(result.stdout.as_str());
    let raw = if stdout_trimmed.as_str().is_empty() {
        result.stderr.as_str()
    } else {
        result.stdout.as_str()
    };
    match extract_version(raw) {
        Some(v) => v,
        None => trim_str(raw),
    }
}

// ------------------------------------------------------------------
// URL checks
// ------------------------------------------------------------------

/// Plain HTTPS: the `https` scheme, no credentials, no port other than 443.
pub open spec fn plain_https(raw: Seq<char>) -> bool {
    &&& url_scheme(raw) == "https"@
    &&& url_username(raw).len() == 0
    &&& url_password(raw) is None
    &&& (url_port(raw) is None || url_port(raw) == Some(443u16))
}

/// A host under the official Feishu or Lark domains (compared in ASCII lower case).
pub open spec fn official_auth_host(host: Seq<char>) -> bool {
    let h = ascii_lowercase(host);
    ||| h == "feishu.cn"@
    ||| ends_with(h, ".feishu.cn"@)
    ||| h == "larksuite.com"@
    ||| ends_with(h, ".larksuite.com"@)
}

/// The host of a URL, empty when it has none.
pub open spec fn host_or_empty(raw: Seq<char>) -> Seq<char> {
    match url_host(raw) {
        Some(h) => h,
        None => Seq::empty(),
    }
}

/// `raw` is an authorization address the user may be sent to.
pub open spec fn valid_auth_url(raw: Seq<char>) -> bool {
    url_parses(raw) && plain_https(raw) && official_auth_host(host_or_empty(raw))
}

/// Parsed URL parts that are plain HTTPS: the `https` scheme, no
/// credentials, no port other than 443.
pub open spec fn parts_plain_https(p: UrlParts) -> bool {
    &&& p.scheme@ == "https"@
    &&& p.username@.len() == 0
    &&& p.password is None
    &&& (p.port is None || p.port == Some(443u16))
}

/// The host of parsed URL parts, empty when there is none.
pub open spec fn parts_host(p: UrlParts) -> Seq<char> {
    match p.host {
        Some(h) => h@,
        None => Seq::empty(),
    }
}

fn is_plain_https(parts: &UrlParts) -> (r: bool)
    ensures
        r == parts_plain_https(*parts),
{
    let port_ok = match parts.port {
        None => true,
        Some(p) => p == 443,
    };
    str_eq(parts.scheme.as_str(), "https") && parts.username.as_str().is_empty()
        && parts.password.is_none() && port_ok
}

fn host_text(parts: &UrlParts) -> (r: String)
    ensures
        r@ == parts_host(*parts),
{
    match &parts.host {
        Some(h) => h.clone(),
        None => String::new(),
    }
}

/// The verdict on a parsed authorization address: plain HTTPS on an
/// official Feishu or Lark domain.
pub fn auth_url_verdict(parts: &UrlParts) -> (r: Result<(), FeishuError>)
    ensures
        !parts_plain_https(*parts) ==> r matches Err(FeishuError::AuthUrlInsecure),
        parts_plain_https(*parts) && !official_auth_host(parts_host(*parts)) ==> r matches Err(
            FeishuError::AuthUrlNotOfficial,
        ),
        parts_plain_https(*parts) && official_auth_host(parts_host(*parts)) ==> r is Ok,
{
    if !is_plain_https(parts) {
        return Err(FeishuError::AuthUrlInsecure);
    }
    let host_raw = host_text(parts);
    let host = to_ascii_lowercase(host_raw.as_str());
    let allowed = str_eq(host.as_str(), "feishu.cn") || str_ends_with(host.as_str(), ".feishu.cn")
        || str_eq(host.as_str(), "larksuite.com") || str_ends_with(host.as_str(), ".larksuite.com");
    if !allowed {
        return Err(FeishuError::AuthUrlNotOfficial);
    }
    Ok(())
}

/// Only HTTPS addresses on the official Feishu and Lark domains pass.
pub fn validate_feishu_auth_url(raw: &str) -> (r: Result<(), FeishuError>)
    ensures
        r is Ok <==> valid_auth_url(raw@),
        !url_parses(raw@) ==> r matches Err(FeishuError::AuthUrlMalformed),
        url_parses(raw@) && !plain_https(raw@) ==> r matches Err(FeishuError::AuthUrlInsecure),
        url_parses(raw@) && plain_https(raw@) && !official_auth_host(host_or_empty(raw@)) ==> r matches Err(
            FeishuError::AuthUrlNotOfficial,
        ),
{
    match parse_url(raw) {
        Ok(parts) => auth_url_verdict(&parts),
        Err(_) => Err(FeishuError::AuthUrlMalformed),
    }
}

/// The hosts from which the CLI may be downloaded.
pub open spec fn download_host(host: Seq<char>) -> bool {
    ||| host == "registry.npmjs.org"@
    ||| host == "github.com"@
    ||| host == "objects.githubusercontent.com"@
    ||| host == "release-assets.githubusercontent.com"@
    ||| host == "registry.npmmirror.com"@
    ||| host == "cdn.npmmirror.com"@
}

/// Whether parsed URL parts are a place the CLI may be downloaded from.
pub fn download_url_allowed(parts: &UrlParts) -> (r: bool)
    ensures
        r == (parts_plain_https(*parts) && download_host(parts_host(*parts))),
{
    if !is_plain_https(parts) {
        return false;
    }
    let host = host_text(parts);
    let h = host.as_str();
    str_eq(h, "registry.npmjs.org") || str_eq(h, "github.com") || str_eq(h, "objects.githubusercontent.com")
        || str_eq(h, "release-assets.githubusercontent.com") || str_eq(h, "registry.npmmirror.com")
        || str_eq(h, "cdn.npmmirror.com")
}

/// Downloads (and redirects) are followed only to plain HTTPS URLs on the
/// npm, GitHub and npmmirror hosts.
pub fn is_allowed_download_url(raw: &str) -> (r: bool)
    ensures
        r == (url_parses(raw@) && plain_https(raw@) && download_host(host_or_empty(raw@))),
{
    match parse_url(raw) {
        Ok(parts) => download_url_allowed(&parts),
        Err(_) => false,
    }
}

// ------------------------------------------------------------------
// JSON reported by the CLI
// ------------------------------------------------------------------

/// `value.identities.user`, when present.
pub open spec fn identity_user(value: Option<JsonValue>) -> Option<JsonValue> {
    match value {
        Some(v) => match get_spec(v, "identities"@) {
            Some(identities) => get_spec(identities, "user"@),
            None => None,
        },
        None => None,
    }
}

/// A user-identity status that counts as logged in.
pub open spec fn ready_status(s: Seq<char>) -> bool {
    s == "ready"@ || s == "authenticated"@ || s == "logged_in"@
}

/// Whether the user identity is available: its `available` flag, else whether
/// its lower-cased `status` is `ready`, `authenticated` or `logged_in`.
pub open spec fn identity_authenticated(user: JsonValue) -> Option<bool> {
    match get_spec(user, "available"@) {
        Some(a) if bool_spec(a) is Some => bool_spec(a),
        _ => match get_spec(user, "status"@) {
            Some(st) if str_spec(st) is Some => Some(ready_status(unicode_lowercase(str_spec(st)->0))),
            _ => None,
        },
    }
}

/// The user identity's `message` (or, when there is no `message` member, its `hint`) text.
pub open spec fn identity_detail(user: JsonValue) -> Option<Seq<char>> {
    match get_spec(user, "message"@) {
        Some(m) => str_spec(m),
        None => match get_spec(user, "hint"@) {
            Some(h) => str_spec(h),
            None => None,
        },
    }
}

/// The view of an optional `&JsonValue`.
pub open spec fn opt_json(value: Option<&JsonValue>) -> Option<JsonValue> {
    match value {
        Some(v) => Some(*v),
        None => None,
    }
}

/// What `auth status --json` says of the user identity: whether it is
/// authenticated and an explanation, each when reported.
pub fn user_identity_state(value: Option<&JsonValue>) -> (r: (Option<bool>, Option<String>))
    ensures
        match identity_user(opt_json(value)) {
            Some(user) => r.0 == identity_authenticated(user) && opt_text(r.1) == identity_detail(user),
            None => r.0 is None && r.1 is None,
        },
{
    let user = match value {
        Some(v) => match v.get("identities") {
            Some(identities) => identities.get("user"),
            None => None,
        },
        None => None,
    };
    let user = match user {
        Some(u) => u,
        None => return (None, None),
    };
    let available = match user.get("available") {
        Some(a) => a.as_bool(),
        None => None,
    };
    let authenticated = match available {
        Some(b) => Some(b),
        None => match user.get("status") {
            Some(st) => match st.as_str() {
                Some(text) => {
                    let lower = to_lowercase(text);
                    let l = lower.as_str();
                    Some(str_eq(l, "ready") || str_eq(l, "authenticated") || str_eq(l, "logged_in"))
                },
                None => None,
            },
            None => None,
        },
    };
    let detail_value = match user.get("message") {
        Some(m) => Some(m),
        None => user.get("hint"),
    };
    let detail = match detail_value {
        Some(d) => match d.as_str() {
            Some(text) => Some(owned(text)),
            None => None,
        },
        None => None,
    };
    (authenticated, detail)
}

/// Keys under which the CLI reports the device code.
pub open spec fn device_code_keys() -> Seq<Seq<char>> {
    seq!["device_code"@, "deviceCode"@]
}

/// Keys under which the CLI reports the authorization address, most complete first.
pub open spec fn verification_url_keys() -> Seq<Seq<char>> {
    seq![
        "verification_uri_complete"@,
        "verificationUriComplete"@,
        "verification_url"@,
        "verificationUrl"@,
        "verification_uri"@,
        "verificationUri"@,
    ]
}

/// Keys under which the CLI reports the user code.
pub open spec fn user_code_keys() -> Seq<Seq<char>> {
    seq!["user_code"@, "userCode"@]
}

/// Keys under which the CLI reports the lifetime of the device code, in seconds.
pub open spec fn expires_keys() -> Seq<Seq<char>> {
    seq!["expires_in"@, "expiresIn"@]
}

/// The value of the first query pair named `name`.
pub open spec fn first_query_value(pairs: Seq<(Seq<char>, Seq<char>)>, name: Seq<char>) -> Option<Seq<char>>
    decreases pairs.len(),
{
    if pairs.len() == 0 {
        None
    } else if pairs[0].0 == name {
        Some(pairs[0].1)
    } else {
        first_query_value(pairs.drop_first(), name)
    }
}

/// The `user_code` query parameter of an authorization address.
pub open spec fn url_user_code(raw: Seq<char>) -> Option<Seq<char>> {
    if url_parses(raw) { first_query_value(url_query_pairs(raw), "user_code"@) } else { None }
}

/// A device-code authorization waiting for the user.
#[derive(Debug)]
pub struct PendingLogin {
    pub device_code: String,
    pub session: FeishuLoginSession,
}

/// The moment a device code expires: `now_ms` plus the lifetime in
/// milliseconds (saturating at the largest time).
pub open spec fn expiry_spec(now_ms: u64, seconds: u64) -> u64 {
    if now_ms + seconds * 1000 > u64::MAX { u64::MAX } else { (now_ms + seconds * 1000) as u64 }
}

fn query_value(raw: &str, name: &str) -> (r: Option<String>)
    ensures
        opt_text(r) == (if url_parses(raw@) { first_query_value(url_query_pairs(raw@), name@) } else { None }),
{
    let pairs = match parse_url(raw) {
        Ok(p) => p.query,
        Err(_) => return None,
    };
    let ghost all = pairs@.map_values(|p: (String, String)| crate::web::pair_text(p));
    let mut i: usize = 0;
    assert(all.skip(0) == all);
    while i < pairs.len()
        invariant
            i <= pairs.len(),
            all == pairs@.map_values(|p: (String, String)| crate::web::pair_text(p)),
            all == url_query_pairs(raw@),
            url_parses(raw@),
            first_query_value(all, name@) == first_query_value(all.skip(i as int), name@),
        decreases pairs.len() - i,
    {
        assert(all.skip(i as int).drop_first() == all.skip(i + 1));
        assert(all.skip(i as int)[0] == crate::web::pair_text(pairs@[i as int]));
        if str_eq(pairs[i].0.as_str(), name) {
            return Some(pairs[i].1.clone());
        }
        i = i + 1;
    }
    None
}

/// What a login answer of the CLI yields as the step `stage`: the device
/// code, the address to open (which must pass `validate_feishu_auth_url`),
/// the user code (reported, or taken from the address) and the expiry.
pub open spec fn login_step_spec(
    r: Result<PendingLogin, FeishuError>,
    value: Option<JsonValue>,
    now_ms: u64,
    stage: Seq<char>,
) -> bool {
    let v = value;
    let device = match v { Some(x) => deep_string(x, device_code_keys()), None => None };
    let url = match v { Some(x) => deep_string(x, verification_url_keys()), None => None };
    let user_code = match v { Some(x) => deep_string(x, user_code_keys()), None => None };
    let expires = match v { Some(x) => deep_number(x, expires_keys()), None => None };
    &&& device is None ==> (r matches Err(FeishuError::MissingDeviceCode))
    &&& device is Some && (url is None || !valid_auth_url(url->0)) ==> (r matches Err(
        FeishuError::MissingVerificationUrl,
    ))
    &&& device is Some && url is Some && valid_auth_url(url->0) ==> (r matches Ok(p) && {
        &&& p.device_code@ == device->0
        &&& p.session.verification_url@ == url->0
        &&& p.session.stage@ == stage
        &&& opt_text(p.session.user_code) == (if user_code is Some {
            user_code
        } else {
            url_user_code(url->0)
        })
        &&& p.session.expires_at == (match expires {
            Some(sec) => Some(expiry_spec(now_ms, sec)),
            None => None,
        })
    })
}

/// What the answer of `auth login --no-wait --json` yields: the account
/// authorization step.
pub open spec fn login_payload_spec(r: Result<PendingLogin, FeishuError>, value: Option<JsonValue>, now_ms: u64) -> bool {
    login_step_spec(r, value, now_ms, "authorize"@)
}

/// Whether a CLI answer reports that the CLI is not configured yet.
pub open spec fn reports_not_configured(result: CliResult) -> bool {
    contains(result.stdout@, "not_configured"@) || contains(result.stderr@, "not_configured"@)
}

/// Where finishing a device-code step leads.
#[derive(Debug)]
pub enum LoginProgress {
    /// The CLI must first be configured: the official configuration page to
    /// open; finishing this step continues to account authorization.
    Configure(FeishuLoginSession),
    /// The configuration is done: account authorization is to be started
    /// next (`auth login --no-wait --json`).
    AuthorizeNext,
    /// The account is authorized.
    Authorized,
}

/// Law: every page a login step sends the user to, configuration or
/// account authorization, is an HTTPS address on an official Feishu or Lark
/// domain.
pub proof fn law_login_pages_are_official(p: PendingLogin, value: Option<JsonValue>, now_ms: u64, stage: Seq<char>)
    requires
        login_step_spec(Ok(p), value, now_ms, stage),
    ensures
        valid_auth_url(p.session.verification_url@),
{
}

/// Reads the answer of `auth login --no-wait --json`: the device code, the
/// authorization address (which must pass `validate_feishu_auth_url`), the
/// user code (reported, or taken from the address) and the expiry.
pub fn parse_login_payload(value: Option<&JsonValue>, now_ms: u64) -> (r: Result<PendingLogin, FeishuError>)
    ensures
        login_payload_spec(r, opt_json(value), now_ms),
{
    read_login_step(value, now_ms, "authorize")
}

/// Reads a login answer of the CLI as the step `stage`.
fn read_login_step(value: Option<&JsonValue>, now_ms: u64, stage: &str) -> (r: Result<PendingLogin, FeishuError>)
    ensures
        login_step_spec(r, opt_json(value), now_ms, stage@),
{
    let device_keys: [&str; 2] = ["device_code", "deviceCode"];
    let url_keys: [&str; 6] = [
        "verification_uri_complete",
        "verificationUriComplete",
        "verification_url",
        "verificationUrl",
        "verification_uri",
        "verificationUri",
    ];
    let code_keys: [&str; 2] = ["user_code", "userCode"];
    let expiry_keys: [&str; 2] = ["expires_in", "expiresIn"];
    assert(key_views(device_keys@) =~= device_code_keys());
    assert(key_views(url_keys@) =~= verification_url_keys());
    assert(key_views(code_keys@) =~= user_code_keys());
    assert(key_views(expiry_keys@) =~= expires_keys());
    let device_code = match find_deep_string(value, device_keys.as_slice()) {
        Some(d) => d,
        None => return Err(FeishuError::MissingDeviceCode),
    };
    let verification_url = match find_deep_string(value, url_keys.as_slice()) {
        Some(u) => {
            if validate_feishu_auth_url(u.as_str()).is_err() {
                return Err(FeishuError::MissingVerificationUrl);
            }
            u
        },
        None => return Err(FeishuError::MissingVerificationUrl),
    };
    let user_code = match find_deep_string(value, code_keys.as_slice()) {
        Some(c) => Some(c),
        None => query_value(verification_url.as_str(), "user_code"),
    };
    let expires_at = match find_deep_number(value, expiry_keys.as_slice()) {
        Some(seconds) => Some(
            match seconds.checked_mul(1000) {
                Some(ms) => match now_ms.checked_add(ms) {
                    Some(t) => t,
                    None => u64::MAX,
                },
                None => u64::MAX,
            },
        ),
        None => None,
    };
    Ok(PendingLogin {
        device_code,
        session: FeishuLoginSession { stage: owned(stage), verification_url, user_code, expires_at },
    })
}

// ------------------------------------------------------------------
// Locating the CLI and reporting its status
// ------------------------------------------------------------------

/// The file name of the CLI executable.
pub open spec fn cli_binary_spec(windows: bool) -> Seq<char> {
    if windows { "lark-cli.exe"@ } else { "lark-cli"@ }
}

/// The file name of the CLI executable on the given platform.
pub fn cli_binary_name(windows: bool) -> (r: &'static str)
    ensures
        r@ == cli_binary_spec(windows),
{
    if windows {
        "lark-cli.exe"
    } else {
        "lark-cli"
    }
}

/// A CLI executable and where it was found (`managed`, `bundled-legacy` or `path`).
#[derive(Debug)]
pub struct CliLocation {
    pub path: String,
    pub source: String,
}

/// A status for a CLI that cannot be used, with the reason.
pub fn unavailable_status(detail: String) -> (r: FeishuCliStatus)
    ensures
        !r.installed,
        r.version is None,
        !r.authenticated,
        r.detail == Some(detail),
        r.source is None,
        r.executable_path is None,
        r.latest_version is None,
        !r.update_available,
{
    FeishuCliStatus {
        installed: false,
        version: None,
        authenticated: false,
        detail: Some(detail),
        source: None,
        executable_path: None,
        latest_version: None,
        update_available: false,
    }
}

/// A status that names where the CLI was found.
pub open spec fn located_status(
    r: FeishuCliStatus,
    location: CliLocation,
    installed: bool,
    version: Option<Seq<char>>,
    authenticated: bool,
    detail: Seq<char>,
) -> bool {
    &&& r.installed == installed
    &&& opt_text(r.version) == version
    &&& r.authenticated == authenticated
    &&& opt_text(r.detail) == Some(detail)
    &&& opt_text(r.source) == Some(location.source@)
    &&& opt_text(r.executable_path) == Some(location.path@)
    &&& r.latest_version is None
    &&& !r.update_available
}

fn status_at(
    location: &CliLocation,
    installed: bool,
    version: Option<String>,
    authenticated: bool,
    detail: String,
) -> (r: FeishuCliStatus)
    ensures
        located_status(r, *location, installed, opt_text(version), authenticated, detail@),
{
    FeishuCliStatus {
        installed,
        version,
        authenticated,
        detail: Some(detail),
        source: Some(location.source.clone()),
        executable_path: Some(location.path.clone()),
        latest_version: None,
        update_available: false,
    }
}

/// Where the status check stands after running `--version`.
pub open spec fn after_version_spec(
    r: Result<String, FeishuCliStatus>,
    location: CliLocation,
    outcome: Result<CliResult, String>,
) -> bool {
    match outcome {
        Err(e) => r matches Err(st) && located_status(st, location, false, None, false, e@),
        Ok(res) => if res.code != 0 {
            r matches Err(st) && located_status(
                st,
                location,
                false,
                None,
                false,
                error_text_spec(res.code, res.stdout@, res.stderr@),
            )
        } else {
            r matches Ok(v) && v@ == normalized_version_spec(res.stdout@, res.stderr@)
        },
    }
}

/// Reads the outcome of `lark-cli --version` (or the reason it could not run):
/// the version when the command succeeded, else the final, not-installed status.
pub fn status_after_version(location: &CliLocation, outcome: &Result<CliResult, String>) -> (r: Result<String, FeishuCliStatus>)
    ensures
        after_version_spec(r, *location, *outcome),
{
    match outcome {
        Err(e) => Err(status_at(location, false, None, false, e.clone())),
        Ok(res) => {
            if res.code != 0 {
                Err(status_at(location, false, None, false, error_text(res)))
            } else {
                Ok(normalized_version(res))
            }
        },
    }
}

/// The authentication verdict of `auth status --json`: the command succeeded,
/// its output (lower-cased) mentions none of the logged-out phrases, its
/// standard output holds JSON, and that JSON does not deny the user identity.
pub open spec fn auth_verdict(res: CliResult, parsed: Option<JsonValue>) -> bool {
    let combined = unicode_lowercase(res.stdout@ + "\n"@ + res.stderr@);
    &&& res.code == 0
    &&& !contains(combined, "not logged"@)
    &&& !contains(combined, "未登录"@)
    &&& !contains(combined, "user identity is missing"@)
    &&& !contains(combined, "expired"@)
    &&& parsed is Some
    &&& (match identity_user(parsed) {
        Some(user) => identity_authenticated(user) != Some(false),
        None => true,
    })
}

/// The status after `auth status --json`.
pub open spec fn after_auth_spec(
    r: FeishuCliStatus,
    location: CliLocation,
    version: Seq<char>,
    outcome: Result<CliResult, String>,
    parsed: Option<JsonValue>,
) -> bool {
    match outcome {
        Err(e) => located_status(r, location, true, Some(version), false, e@),
        Ok(res) => {
            let ok = auth_verdict(res, parsed);
            let detail = if ok {
                "飞书 CLI 用户身份已登录"@
            } else {
                match identity_user(parsed) {
                    Some(user) if identity_detail(user) is Some => identity_detail(user)->0,
                    _ => error_text_spec(res.code, res.stdout@, res.stderr@),
                }
            };
            located_status(r, location, true, Some(version), ok, detail)
        },
    }
}

/// The final status from the outcome of `auth status --json` and its JSON output.
pub fn status_after_auth(
    location: &CliLocation,
    version: String,
    outcome: &Result<CliResult, String>,
    parsed: Option<&JsonValue>,
) -> (r: FeishuCliStatus)
    ensures
        after_auth_spec(r, *location, version@, *outcome, opt_json(parsed)),
{
    match outcome {
        Err(e) => status_at(location, true, Some(version), false, e.clone()),
        Ok(res) => {
            let joined_output = concat(res.stdout.as_str(), "\n");
            let joined_output = concat(joined_output.as_str(), res.stderr.as_str());
            let combined = to_lowercase(joined_output.as_str());
            let c = combined.as_str();
            let (identity_ok, identity_detail_text) = user_identity_state(parsed);
            let identity_denied = match identity_ok {
                Some(b) => !b,
                None => false,
            };
            let authenticated = res.code == 0 && !str_contains(c, "not logged") && !str_contains(c, "未登录")
                && !str_contains(c, "user identity is missing") && !str_contains(c, "expired")
                && parsed.is_some() && !identity_denied;
            let detail = if authenticated {
                owned("飞书 CLI 用户身份已登录")
            } else {
                match identity_detail_text {
                    Some(d) => d,
                    None => error_text(res),
                }
            };
            status_at(location, true, Some(version), authenticated, detail)
        },
    }
}

/// The status with the latest official release: an update is available when
/// the installed version precedes it, or, when the installed version cannot
/// be compared, when the CLI is not installed.
pub fn with_latest_release(status: FeishuCliStatus, latest_version: &str) -> (r: FeishuCliStatus)
    ensures
        r.installed == status.installed,
        r.version == status.version,
        r.authenticated == status.authenticated,
        r.detail == status.detail,
        r.source == status.source,
        r.executable_path == status.executable_path,
        opt_text(r.latest_version) == Some(latest_version@),
        r.update_available == (match status.version {
            Some(v) => if crate::versions::semver_valid(v@) && crate::versions::semver_valid(latest_version@) {
                crate::versions::semver_less(v@, latest_version@)
            } else {
                !status.installed
            },
            None => !status.installed,
        }),
{
    let update_available = match &status.version {
        Some(v) => match crate::versions::version_less(v.as_str(), latest_version) {
            Some(less) => less,
            None => !status.installed,
        },
        None => !status.installed,
    };
    FeishuCliStatus {
        latest_version: Some(owned(latest_version)),
        update_available,
        ..status
    }
}

/// The CLI front end: where the managed copy lives, older copies to fall back
/// on, a pending authorization and whether a batch is being sent.
pub struct FeishuCli {
    managed_directory: String,
    fallback_executables: Vec<String>,
    pending_login: Option<PendingLogin>,
    sending: bool,
}

impl FeishuCli {
    /// The managed directory.
    pub closed spec fn managed_dir(&self) -> Seq<char> {
        self.managed_directory@
    }

    /// The fallback executables, in the order they are tried.
    pub closed spec fn fallbacks(&self) -> Seq<String> {
        self.fallback_executables@
    }

    /// The pending authorization, if any.
    pub closed spec fn pending(&self) -> Option<PendingLogin> {
        self.pending_login
    }

    /// Whether a batch is being sent.
    pub closed spec fn is_sending(&self) -> bool {
        self.sending
    }

    /// A front end with nothing pending and nothing being sent.
    pub fn new(managed_directory: String, fallback_executables: Vec<String>) -> (r: Self)
        ensures
            r.managed_dir() == managed_directory@,
            r.fallbacks() == fallback_executables@,
            r.pending() is None,
            !r.is_sending(),
    {
        FeishuCli { managed_directory, fallback_executables, pending_login: None, sending: false }
    }

    /// The path of the managed executable.
    pub fn managed_executable(&self, windows: bool) -> (r: String)
        ensures
            r@ == joined(self.managed_dir(), cli_binary_spec(windows), windows),
    {
        join_path(self.managed_directory.as_str(), cli_binary_name(windows), windows)
    }

    /// The executables to try, in order: the managed one, then each fallback.
    pub fn executable_candidates(&self, windows: bool) -> (r: Vec<String>)
        ensures
            r@.len() == 1 + self.fallbacks().len(),
            r@[0]@ == joined(self.managed_dir(), cli_binary_spec(windows), windows),
            forall|i: int| 0 <= i < self.fallbacks().len() ==> #[trigger] r@[i + 1] == self.fallbacks()[i],
    {
        let mut out: Vec<String> = Vec::new();
        out.push(self.managed_executable(windows));
        let mut i: usize = 0;
        while i < self.fallback_executables.len()
            invariant
                i <= self.fallback_executables.len(),
                out@.len() == 1 + i,
                out@[0]@ == joined(self.managed_dir(), cli_binary_spec(windows), windows),
                forall|j: int| 0 <= j < i ==> #[trigger] out@[j + 1] == self.fallbacks()[j],
            decreases self.fallback_executables.len() - i,
        {
            out.push(self.fallback_executables[i].clone());
            i = i + 1;
        }
        out
    }

    /// The executable to use: the first candidate that is a non-empty file
    /// (`usable[i]` for the `i`-th of `executable_candidates`), else the one
    /// found on `PATH`.
    pub fn resolve_executable(&self, windows: bool, usable: &[bool], on_path: Option<String>) -> (r: Option<CliLocation>)
        requires
            usable.len() == 1 + self.fallbacks().len(),
        ensures
            usable[0] ==> (r matches Some(loc) && loc.path@ == joined(self.managed_dir(), cli_binary_spec(windows), windows)
                && loc.source@ == "managed"@),
            !usable[0] && (exists|i: int| 1 <= i < usable.len() && usable[i]) ==> (r matches Some(loc) && exists|i: int|
                1 <= i < usable.len() && usable[i] && (forall|j: int| 1 <= j < i ==> !usable[j])
                && loc.path == self.fallbacks()[i - 1] && loc.source@ == "bundled-legacy"@),
            (forall|i: int| 0 <= i < usable.len() ==> !usable[i]) ==> match on_path {
                Some(p) => r matches Some(loc) && loc.path == p && loc.source@ == "path"@,
                None => r is None,
            },
    {
        if usable[0] {
            return Some(CliLocation { path: self.managed_executable(windows), source: owned("managed") });
        }
        let mut i: usize = 0;
        while i < self.fallback_executables.len()
            invariant
                i <= self.fallback_executables.len(),
                usable.len() == 1 + self.fallback_executables.len(),
                forall|j: int| 0 <= j <= i ==> !usable[j],
            decreases self.fallback_executables.len() - i,
        {
            if usable[i + 1] {
                return Some(CliLocation { path: self.fallback_executables[i].clone(), source: owned("bundled-legacy") });
            }
            i = i + 1;
        }
        match on_path {
            Some(p) => Some(CliLocation { path: p, source: owned("path") }),
            None => None,
        }
    }

    /// The status when no executable was found.
    pub fn missing_cli_status(&self) -> (r: FeishuCliStatus)
        ensures
            !r.installed,
            !r.authenticated,
            r.version is None,
            opt_text(r.detail) == Some("尚未安装飞书官方连接组件。点击“下载官方组件”后会保存到："@ + self.managed_dir()),
            r.source is None,
            r.executable_path is None,
            r.latest_version is None,
            !r.update_available,
    {
        unavailable_status(concat("尚未安装飞书官方连接组件。点击“下载官方组件”后会保存到：", self.managed_directory.as_str()))
    }

    /// The authorization address of the pending authorization.
    pub fn pending_login_url(&self) -> (r: Option<String>)
        ensures
            match self.pending() {
                Some(p) => r == Some(p.session.verification_url),
                None => r is None,
            },
    {
        match &self.pending_login {
            Some(p) => Some(p.session.verification_url.clone()),
            None => None,
        }
    }

    /// Forgets the pending authorization.
    pub fn cancel_login(&mut self)
        ensures
            final(self).pending() is None,
            final(self).managed_dir() == old(self).managed_dir(),
            final(self).fallbacks() == old(self).fallbacks(),
            final(self).is_sending() == old(self).is_sending(),
    {
        self.pending_login = None;
    }

    /// Takes the answer of `auth login --no-wait --json`: on success the new
    /// authorization becomes the pending one and its session is returned.
    pub fn start_login(&mut self, result: &CliResult, payload: Option<&JsonValue>, now_ms: u64) -> (r: Result<FeishuLoginSession, FeishuError>)
        ensures
            final(self).managed_dir() == old(self).managed_dir(),
            final(self).fallbacks() == old(self).fallbacks(),
            final(self).is_sending() == old(self).is_sending(),
            result.code != 0 ==> (r matches Err(FeishuError::Command(t))
                && t@ == error_text_spec(result.code, result.stdout@, result.stderr@))
                && final(self).pending() == old(self).pending(),
            r matches Ok(session) ==> valid_auth_url(session.verification_url@),
            result.code == 0 ==> match r {
                Ok(session) => final(self).pending() matches Some(p) && p.session == session
                    && login_payload_spec(Ok(p), opt_json(payload), now_ms),
                Err(e) => login_payload_spec(Err(e), opt_json(payload), now_ms)
                    && final(self).pending() == old(self).pending(),
            },
    {
        if result.code != 0 {
            return Err(FeishuError::Command(error_text(result)));
        }
        let pending = parse_login_payload(payload, now_ms);
        match pending {
            Ok(p) => {
                proof {
                    law_login_pages_are_official(p, opt_json(payload), now_ms, "authorize"@);
                }
                let session = p.session.clone();
                self.pending_login = Some(p);
                Ok(session)
            },
            Err(e) => Err(e),
        }
    }

    /// The device code to finish authorizing with.
    pub fn pending_device_code(&self) -> (r: Result<String, FeishuError>)
        ensures
            match self.pending() {
                Some(p) => r == Ok::<String, FeishuError>(p.device_code),
                None => r matches Err(FeishuError::NoPendingLogin),
            },
    {
        match &self.pending_login {
            Some(p) => Ok(p.device_code.clone()),
            None => Err(FeishuError::NoPendingLogin),
        }
    }

    /// Takes the answer of `auth login --device-code <code> --json`.
    /// - An answer that reports `not_configured` (the CLI must first be set
    ///   up, from lark-cli 1.0.92 on) yields the configuration step: its page,
    ///   an official address, becomes the pending step and is returned to be
    ///   opened; finishing that step again continues to account authorization.
    /// - Otherwise a failed command is refused with its explanation.
    /// - Otherwise nothing is pending any more: after the configuration step
    ///   account authorization is to be started next, after the authorization
    ///   step the account is authorized.
    pub fn complete_login(&mut self, result: &CliResult, payload: Option<&JsonValue>, now_ms: u64) -> (r: Result<LoginProgress, FeishuError>)
        ensures
            final(self).managed_dir() == old(self).managed_dir(),
            final(self).fallbacks() == old(self).fallbacks(),
            final(self).is_sending() == old(self).is_sending(),
            reports_not_configured(*result) ==> match r {
                Ok(LoginProgress::Configure(session)) => {
                    &&& final(self).pending() matches Some(p) && p.session == session
                        && login_step_spec(Ok(p), opt_json(payload), now_ms, "configure"@)
                    &&& valid_auth_url(session.verification_url@)
                },
                Ok(_) => false,
                Err(e) => login_step_spec(Err(e), opt_json(payload), now_ms, "configure"@)
                    && final(self).pending() == old(self).pending(),
            },
            !reports_not_configured(*result) && result.code != 0 ==> (r matches Err(FeishuError::Command(t))
                && t@ == error_text_spec(result.code, result.stdout@, result.stderr@))
                && final(self).pending() == old(self).pending(),
            !reports_not_configured(*result) && result.code == 0 ==> final(self).pending() is None && (if (old(
                self,
            ).pending() matches Some(p) && p.session.stage@ == "configure"@) {
                r matches Ok(LoginProgress::AuthorizeNext)
            } else {
                r matches Ok(LoginProgress::Authorized)
            }),
    {
        let not_configured = str_contains(result.stdout.as_str(), "not_configured")
            || str_contains(result.stderr.as_str(), "not_configured");
        if not_configured {
            return match read_login_step(payload, now_ms, "configure") {
                Ok(p) => {
                    proof {
                        law_login_pages_are_official(p, opt_json(payload), now_ms, "configure"@);
                    }
                    let session = p.session.clone();
                    self.pending_login = Some(p);
                    Ok(LoginProgress::Configure(session))
                },
                Err(e) => Err(e),
            };
        }
        if result.code != 0 {
            return Err(FeishuError::Command(error_text(result)));
        }
        let after_configuration = match &self.pending_login {
            Some(p) => str_eq(p.session.stage.as_str(), "configure"),
            None => false,
        };
        self.pending_login = None;
        if after_configuration {
            Ok(LoginProgress::AuthorizeNext)
        } else {
            Ok(LoginProgress::Authorized)
        }
    }

    /// Starts a batch; refused while another batch is being sent.
    pub fn begin_sending(&mut self) -> (r: Result<(), FeishuError>)
        ensures
            final(self).managed_dir() == old(self).managed_dir(),
            final(self).fallbacks() == old(self).fallbacks(),
            final(self).pending() == old(self).pending(),
            old(self).is_sending() ==> (r matches Err(FeishuError::AlreadySending)) && final(self).is_sending(),
            !old(self).is_sending() ==> r is Ok && final(self).is_sending(),
    {
        if self.sending {
            return Err(FeishuError::AlreadySending);
        }
        self.sending = true;
        Ok(())
    }

    /// Ends the batch being sent.
    pub fn end_sending(&mut self)
        ensures
            final(self).managed_dir() == old(self).managed_dir(),
            final(self).fallbacks() == old(self).fallbacks(),
            final(self).pending() == old(self).pending(),
            !final(self).is_sending(),
    {
        self.sending = false;
    }
}

/// Whether a finished authorization left the CLI logged in: refused with the
/// status's explanation otherwise.
pub fn finish_login_status(status: FeishuCliStatus) -> (r: Result<FeishuCliStatus, FeishuError>)
    ensures
        status.authenticated ==> r == Ok::<FeishuCliStatus, FeishuError>(status),
        !status.authenticated ==> (r matches Err(FeishuError::Command(t)) && t@ == match status.detail {
            Some(d) => d@,
            None => "飞书授权尚未完成"@,
        }),
{
    if status.authenticated {
        Ok(status)
    } else {
        let detail = match &status.detail {
            Some(d) => d.clone(),
            None => owned("飞书授权尚未完成"),
        };
        Err(FeishuError::Command(detail))
    }
}

/// The current Feishu user from `contact +get-user --format json`.
pub fn self_from_output(result: &CliResult, payload: Option<&JsonValue>) -> (r: Result<crate::models::FeishuSelf, FeishuError>)
    ensures
        result.code != 0 ==> (r matches Err(FeishuError::Command(t)) && t@ == error_text_spec(
            result.code,
            result.stdout@,
            result.stderr@,
        )),
        result.code == 0 ==> ({
            let v = opt_json(payload);
            let open_id = match v { Some(x) => deep_string(x, seq!["open_id"@, "openId"@]), None => None };
            let name = match v { Some(x) => deep_string(x, seq!["name"@, "display_name"@, "displayName"@]), None => None };
            match open_id {
                Some(id) => r matches Ok(me) && me.open_id@ == id && opt_text(me.name) == name,
                None => r matches Err(FeishuError::MissingOpenId),
            }
        }),
{
    if result.code != 0 {
        return Err(FeishuError::Command(error_text(result)));
    }
    let id_keys: [&str; 2] = ["open_id", "openId"];
    let name_keys: [&str; 3] = ["name", "display_name", "displayName"];
    assert(key_views(id_keys@) =~= seq!["open_id"@, "openId"@]);
    assert(key_views(name_keys@) =~= seq!["name"@, "display_name"@, "displayName"@]);
    let open_id = match find_deep_string(payload, id_keys.as_slice()) {
        Some(id) => id,
        None => return Err(FeishuError::MissingOpenId),
    };
    let name = find_deep_string(payload, name_keys.as_slice());
    Ok(crate::models::FeishuSelf { open_id, name })
}

// ------------------------------------------------------------------
// Release metadata and verified downloads
// ------------------------------------------------------------------

/// Base of the GitHub release downloads.
pub open spec fn github_release_base() -> Seq<char> {
    "https://github.com/larksuite/cli/releases/download"@
}

/// Base of the npmmirror binary downloads.
pub open spec fn npm_mirror_base() -> Seq<char> {
    "https://registry.npmmirror.com/-/binary/lark-cli"@
}

/// Where the latest release is announced.
pub open spec fn npm_latest_url_spec() -> Seq<char> {
    "https://registry.npmjs.org/@larksuite%2fcli/latest"@
}

/// The npm metadata describing the latest release.
pub fn npm_latest_url() -> (r: &'static str)
    ensures
        r@ == npm_latest_url_spec(),
{
    "https://registry.npmjs.org/@larksuite%2fcli/latest"
}

/// The official release to install: its version, archive, digest and the
/// two places it can be downloaded from.
#[derive(Debug)]
pub struct ReleaseSpec {
    pub version: String,
    pub archive_name: String,
    pub checksum: String,
    pub github_url: String,
    pub mirror_url: String,
}

/// The version and archive name of the latest release for a target.
pub fn release_archive(version_text: &str, os: &str, architecture: &str) -> (r: Result<(String, String), FeishuError>)
    ensures
        !crate::versions::semver_valid(trim(version_text@)) ==> r matches Err(FeishuError::InvalidVersion),
        crate::versions::semver_valid(trim(version_text@)) ==> ({
            let v = crate::versions::semver_text(trim(version_text@));
            &&& archive_platform(os@) is None ==> (r matches Err(FeishuError::UnsupportedOs))
            &&& archive_platform(os@) is Some && archive_arch(architecture@) is None ==> (r matches Err(
                FeishuError::UnsupportedArch,
            ))
            &&& archive_platform(os@) is Some && archive_arch(architecture@) is Some ==> (r matches Ok(pair)
                && pair.0@ == v && pair.1@ == archive_name_spec(v, archive_platform(os@)->0, archive_arch(architecture@)->0))
        }),
{
    let trimmed = trim_str(version_text);
    let version = match crate::versions::canonical_version(trimmed.as_str()) {
        Some(v) => v,
        None => return Err(FeishuError::InvalidVersion),
    };
    let archive = release_archive_name_for(version.as_str(), os, architecture)?;
    Ok((version, archive))
}

/// The npm package that carries the official `checksums.txt` of a version.
pub fn package_url(version: &str) -> (r: String)
    ensures
        r@ == "https://registry.npmjs.org/@larksuite/cli/-/cli-"@ + version@ + ".tgz"@,
{
    let url = concat("https://registry.npmjs.org/@larksuite/cli/-/cli-", version);
    concat(url.as_str(), ".tgz")
}

/// The release, once the official checksum list has been read: the
/// package must not exceed the metadata limit and must list the archive.
pub fn release_spec(version: String, archive_name: String, package_len: usize, checksums: &str) -> (r: Result<ReleaseSpec, FeishuError>)
    ensures
        package_len > MAX_METADATA_BYTES ==> (r matches Err(FeishuError::Command(t)) && t@ == "飞书 CLI 校验元数据异常过大"@),
        package_len <= MAX_METADATA_BYTES ==> match first_checksum(lines(checksums@), archive_name@) {
            None => r matches Err(FeishuError::MissingChecksum(n)) && n@ == archive_name@,
            Some(sum) => r matches Ok(spec) && {
                &&& spec.version@ == version@
                &&& spec.archive_name@ == archive_name@
                &&& spec.checksum@ == sum
                &&& spec.github_url@ == github_release_base() + "/v"@ + version@ + "/"@ + archive_name@
                &&& spec.mirror_url@ == npm_mirror_base() + "/v"@ + version@ + "/"@ + archive_name@
            },
        },
{
    if package_len > MAX_METADATA_BYTES {
        return Err(FeishuError::Command(owned("飞书 CLI 校验元数据异常过大")));
    }
    let checksum = match checksum_for_archive(checksums, archive_name.as_str()) {
        Some(c) => c,
        None => return Err(FeishuError::MissingChecksum(archive_name)),
    };
    let tail = concat("/v", version.as_str());
    let tail = concat(tail.as_str(), "/");
    let tail = concat(tail.as_str(), archive_name.as_str());
    let github_url = concat("https://github.com/larksuite/cli/releases/download", tail.as_str());
    let mirror_url = concat("https://registry.npmmirror.com/-/binary/lark-cli", tail.as_str());
    Ok(ReleaseSpec { version, archive_name, checksum, github_url, mirror_url })
}

/// The label of the `i`-th download source.
pub open spec fn source_label(i: int) -> Seq<char> {
    if i == 0 { "国内加速线路"@ } else { "GitHub Releases"@ }
}

/// The number of download sources.
pub open spec fn source_count() -> nat {
    2
}

/// Total tries over all sources.
pub open spec fn max_attempts_spec() -> nat {
    source_count() * (DOWNLOAD_ATTEMPTS_PER_SOURCE as nat)
}

/// The source of the `n`-th try (counting from 1): each source is tried
/// `DOWNLOAD_ATTEMPTS_PER_SOURCE` times before the next, the mirror first.
pub open spec fn attempt_source(n: nat) -> int {
    ((n - 1) as int) / (DOWNLOAD_ATTEMPTS_PER_SOURCE as int)
}

/// How many times the source of the `n`-th try has been tried, that try included.
pub open spec fn attempt_of_source(n: nat) -> usize {
    ((((n - 1) as int) % (DOWNLOAD_ATTEMPTS_PER_SOURCE as int)) + 1) as usize
}

/// One try of a download.
#[derive(Debug)]
pub struct DownloadAttempt {
    pub current: usize,
    pub total: usize,
    pub source: String,
    pub url: String,
}

/// What follows a failed try: the back-off and the progress report.
#[derive(Debug)]
pub struct RetryNotice {
    pub delay_seconds: u64,
    pub progress: FeishuCliProgress,
}

/// The tries of a verified download: the mirror twice, then GitHub twice.
pub struct DownloadSchedule {
    mirror_url: String,
    github_url: String,
    checksum: String,
    attempts_made: usize,
    last_error: Option<String>,
}

/// A progress report tied to a try.
pub open spec fn attempt_progress_spec(
    p: FeishuCliProgress,
    stage: Seq<char>,
    downloaded: u64,
    total: Option<u64>,
    message: Seq<char>,
    current: usize,
    max: usize,
    source: Seq<char>,
) -> bool {
    &&& p.stage@ == stage
    &&& p.downloaded == downloaded
    &&& p.total == total
    &&& p.message@ == message
    &&& !p.done
    &&& p.attempt == Some(current)
    &&& p.max_attempts == Some(max)
    &&& opt_text(p.source) == Some(source)
}

impl DownloadSchedule {
    /// How many tries have been handed out.
    pub closed spec fn made(&self) -> nat {
        self.attempts_made as nat
    }

    /// The official digest the download must match.
    pub closed spec fn expected(&self) -> Seq<char> {
        self.checksum@
    }

    /// The URL of the `i`-th source.
    pub closed spec fn source_url(&self, i: int) -> Seq<char> {
        if i == 0 { self.mirror_url@ } else { self.github_url@ }
    }

    /// The error of the last failed try.
    pub closed spec fn last_error(&self) -> Option<Seq<char>> {
        opt_text(self.last_error)
    }

    /// No try made yet.
    pub fn new(release: &ReleaseSpec) -> (r: Self)
        ensures
            r.made() == 0,
            r.expected() == release.checksum@,
            r.source_url(0) == release.mirror_url@,
            r.source_url(1) == release.github_url@,
            r.last_error() is None,
    {
        DownloadSchedule {
            mirror_url: release.mirror_url.clone(),
            github_url: release.github_url.clone(),
            checksum: release.checksum.clone(),
            attempts_made: 0,
            last_error: None,
        }
    }

    /// The next try, until every source has been tried its number of times.
    pub fn next_attempt(&mut self) -> (r: Option<DownloadAttempt>)
        requires
            old(self).made() <= max_attempts_spec(),
        ensures
            final(self).expected() == old(self).expected(),
            final(self).last_error() == old(self).last_error(),
            forall|i: int| final(self).source_url(i) == old(self).source_url(i),
            old(self).made() == max_attempts_spec() ==> r is None && final(self).made() == old(self).made(),
            old(self).made() < max_attempts_spec() ==> ({
                let n = (old(self).made() + 1) as nat;
                &&& final(self).made() == n
                &&& r matches Some(a)
                &&& a.current == n
                &&& a.total == max_attempts_spec()
                &&& a.source@ == source_label(attempt_source(n))
                &&& a.url@ == old(self).source_url(attempt_source(n))
            }),
            final(self).made() <= max_attempts_spec(),
    {
        if self.attempts_made >= 4 {
            return None;
        }
        self.attempts_made = self.attempts_made + 1;
        let n = self.attempts_made;
        let first_source = n <= 2;
        Some(DownloadAttempt {
            current: n,
            total: 4,
            source: if first_source { owned("国内加速线路") } else { owned("GitHub Releases") },
            url: if first_source { self.mirror_url.clone() } else { self.github_url.clone() },
        })
    }

    /// The report at the start of a try.
    pub fn attempt_started(attempt: &DownloadAttempt) -> (r: FeishuCliProgress)
        ensures
            attempt_progress_spec(
                r,
                "downloading"@,
                0,
                None,
                "正在从 "@ + attempt.source@ + " 下载飞书官方组件…"@,
                attempt.current,
                attempt.total,
                attempt.source@,
            ),
    {
        let message = concat("正在从 ", attempt.source.as_str());
        let message = concat(message.as_str(), " 下载飞书官方组件…");
        FeishuCliProgress {
            stage: owned("downloading"),
            downloaded: 0,
            total: None,
            message,
            done: false,
            attempt: Some(attempt.current),
            max_attempts: Some(attempt.total),
            source: Some(attempt.source.clone()),
        }
    }

    /// The report after receiving bytes.
    pub fn attempt_progress(attempt: &DownloadAttempt, downloaded: u64, total: Option<u64>) -> (r: FeishuCliProgress)
        ensures
            attempt_progress_spec(
                r,
                "downloading"@,
                downloaded,
                total,
                "正在从 "@ + attempt.source@ + " 下载飞书官方组件…"@,
                attempt.current,
                attempt.total,
                attempt.source@,
            ),
    {
        let message = concat("正在从 ", attempt.source.as_str());
        let message = concat(message.as_str(), " 下载飞书官方组件…");
        FeishuCliProgress {
            stage: owned("downloading"),
            downloaded,
            total,
            message,
            done: false,
            attempt: Some(attempt.current),
            max_attempts: Some(attempt.total),
            source: Some(attempt.source.clone()),
        }
    }

    /// Checks a finished download against the official digest; the report
    /// announces the check.
    pub fn verify_download(&self, attempt: &DownloadAttempt, bytes: &[u8]) -> (r: (FeishuCliProgress, Result<(), String>))
        ensures
            attempt_progress_spec(
                r.0,
                "verifying"@,
                bytes@.len() as u64,
                Some(bytes@.len() as u64),
                "下载完成，正在核对官方 SHA-256…"@,
                attempt.current,
                attempt.total,
                attempt.source@,
            ),
            r.1 is Ok <==> sha256_hex(bytes@) == self.expected(),
            r.1 matches Err(e) ==> e@ == attempt.source@ + " 返回的文件 SHA-256 校验不一致（期望 "@ + self.expected()
                + "，实际 "@ + sha256_hex(bytes@) + "）"@,
    {
        let size = bytes.len() as u64;
        let progress = FeishuCliProgress {
            stage: owned("verifying"),
            downloaded: size,
            total: Some(size),
            message: owned("下载完成，正在核对官方 SHA-256…"),
            done: false,
            attempt: Some(attempt.current),
            max_attempts: Some(attempt.total),
            source: Some(attempt.source.clone()),
        };
        let actual = sha256_hex_of(bytes);
        if str_eq(actual.as_str(), self.checksum.as_str()) {
            return (progress, Ok(()));
        }
        let message = concat(attempt.source.as_str(), " 返回的文件 SHA-256 校验不一致（期望 ");
        let message = concat(message.as_str(), self.checksum.as_str());
        let message = concat(message.as_str(), "，实际 ");
        let message = concat(message.as_str(), actual.as_str());
        let message = concat(message.as_str(), "）");
        (progress, Err(message))
    }

    /// Records a failed try. Unless it was the last, returns the back-off (by
    /// `retry_delay_seconds` of the source's try count) and the report naming
    /// the source tried next.
    pub fn record_failure(&mut self, attempt: &DownloadAttempt, error: String) -> (r: Option<RetryNotice>)
        requires
            1 <= old(self).made() <= max_attempts_spec(),
            attempt.current == old(self).made(),
            attempt.source@ == source_label(attempt_source(old(self).made())),
        ensures
            final(self).made() == old(self).made(),
            final(self).expected() == old(self).expected(),
            forall|i: int| final(self).source_url(i) == old(self).source_url(i),
            final(self).last_error() == Some(error@),
            old(self).made() == max_attempts_spec() ==> r is None,
            old(self).made() < max_attempts_spec() ==> ({
                let n = old(self).made();
                let delay = retry_delay_spec(attempt_of_source(n));
                let next = source_label(attempt_source((n + 1) as nat));
                &&& r matches Some(notice)
                &&& notice.delay_seconds == delay
                &&& notice.progress.stage@ == "retrying"@
                &&& notice.progress.downloaded == 0
                &&& notice.progress.total is None
                &&& !notice.progress.done
                &&& notice.progress.attempt == Some(n as usize)
                &&& notice.progress.max_attempts == Some(max_attempts_spec() as usize)
                &&& opt_text(notice.progress.source) == Some(attempt.source@)
                &&& notice.progress.message@ == "第 "@ + crate::text::decimal(n) + "/"@ + crate::text::decimal(
                    max_attempts_spec(),
                ) + " 次失败："@ + error@ + "。"@ + crate::text::decimal(delay as nat) + " 秒后尝试 "@ + next + "…"@
            }),
    {
        let n = self.attempts_made;
        self.last_error = Some(error.clone());
        if n >= 4 {
            return None;
        }
        let source_attempt: usize = if n % 2 == 1 { 1 } else { 2 };
        let delay = retry_delay_seconds(source_attempt);
        let next = if n + 1 <= 2 { "国内加速线路" } else { "GitHub Releases" };
        let message = concat("第 ", crate::text::u64_to_decimal(n as u64).as_str());
        let message = concat(message.as_str(), "/4 次失败：");
        let message = concat(message.as_str(), error.as_str());
        let message = concat(message.as_str(), "。");
        let message = concat(message.as_str(), crate::text::u64_to_decimal(delay).as_str());
        let message = concat(message.as_str(), " 秒后尝试 ");
        let message = concat(message.as_str(), next);
        let message = concat(message.as_str(), "…");
        proof {
            reveal_strlit("/4 次失败：");
            reveal_strlit("/");
            reveal_strlit("4");
            reveal_strlit(" 次失败：");
            assert(crate::text::decimal(4) =~= "4"@);
            assert("/4 次失败："@ =~= "/"@ + "4"@ + " 次失败："@);
        }
        Some(RetryNotice {
            delay_seconds: delay,
            progress: FeishuCliProgress {
                stage: owned("retrying"),
                downloaded: 0,
                total: None,
                message,
                done: false,
                attempt: Some(n),
                max_attempts: Some(4),
                source: Some(attempt.source.clone()),
            },
        })
    }

    /// The error once every try has failed.
    pub fn final_error(&self) -> (r: String)
        ensures
            r@ == "飞书 CLI 下载失败，已尝试 4 次："@ + match self.last_error() {
                Some(e) => e,
                None => "没有可用下载源"@,
            },
    {
        let reason = match &self.last_error {
            Some(e) => e.clone(),
            None => owned("没有可用下载源"),
        };
        concat("飞书 CLI 下载失败，已尝试 4 次：", reason.as_str())
    }
}

/// Checks on a download as it arrives: the final URL (after redirects)
/// must be an allowed download URL, the announced and received sizes must
/// stay within the archive limit, and the result must not be empty.
pub fn check_download_start(final_url: &str, content_length: Option<u64>) -> (r: Result<(), String>)
    ensures
        r is Ok <==> ((url_parses(final_url@) && plain_https(final_url@) && download_host(host_or_empty(final_url@)))
            && !(content_length matches Some(n) && n > MAX_ARCHIVE_BYTES)),
        !(url_parses(final_url@) && plain_https(final_url@) && download_host(host_or_empty(final_url@))) ==> (r matches Err(
            e,
        ) && e@ == "下载被重定向到非官方地址"@),
        (url_parses(final_url@) && plain_https(final_url@) && download_host(host_or_empty(final_url@)))
            && (content_length matches Some(n) && n > MAX_ARCHIVE_BYTES) ==> (r matches Err(e) && e@
            == "飞书 CLI 下载文件异常过大"@),
{
    if !is_allowed_download_url(final_url) {
        return Err(owned("下载被重定向到非官方地址"));
    }
    match content_length {
        Some(n) => {
            if n > 209715200 {
                return Err(owned("飞书 CLI 下载文件异常过大"));
            }
        },
        None => {},
    }
    Ok(())
}

/// Whether `chunk_len` more bytes may be added to `received` bytes.
pub fn accept_chunk(received: usize, chunk_len: usize) -> (r: Result<(), String>)
    ensures
        r is Ok <==> received + chunk_len <= MAX_ARCHIVE_BYTES,
        r matches Err(e) ==> e@ == "飞书 CLI 下载文件超过安全大小限制"@,
{
    if chunk_len > MAX_ARCHIVE_BYTES || received > MAX_ARCHIVE_BYTES - chunk_len {
        Err(owned("飞书 CLI 下载文件超过安全大小限制"))
    } else {
        Ok(())
    }
}

/// A download that ended with no bytes is an error.
pub fn check_download_end(received: usize) -> (r: Result<(), String>)
    ensures
        r is Ok <==> received > 0,
        r matches Err(e) ==> e@ == "飞书 CLI 下载结果为空"@,
{
    if received == 0 {
        Err(owned("飞书 CLI 下载结果为空"))
    } else {
        Ok(())
    }
}

// ------------------------------------------------------------------
// Sending stickers
// ------------------------------------------------------------------

/// Where a batch goes, once the destination has been read.
#[derive(Debug)]
pub enum DestinationStep {
    /// Send to the current user, whose `open_id` must first be looked up.
    CurrentUser,
    /// Send with this flag (`--user-id` or `--chat-id`) to this id.
    Target(String, String),
}

/// Reads the chosen destination: a user or chat id is trimmed and must not be blank.
pub fn resolve_destination(destination: &FeishuDestination) -> (r: Result<DestinationStep, FeishuError>)
    ensures
        match destination {
            FeishuDestination::SelfTarget => r matches Ok(DestinationStep::CurrentUser),
            FeishuDestination::User { id } => if trim(id@).len() == 0 {
                r matches Err(FeishuError::EmptyUser)
            } else {
                r matches Ok(DestinationStep::Target(flag, target)) && flag@ == "--user-id"@ && target@ == trim(id@)
            },
            FeishuDestination::Chat { id } => if trim(id@).len() == 0 {
                r matches Err(FeishuError::EmptyChat)
            } else {
                r matches Ok(DestinationStep::Target(flag, target)) && flag@ == "--chat-id"@ && target@ == trim(id@)
            },
        },
{
    match destination {
        FeishuDestination::SelfTarget => Ok(DestinationStep::CurrentUser),
        FeishuDestination::User { id } => {
            let trimmed = trim_str(id.as_str());
            if trimmed.as_str().is_empty() {
                Err(FeishuError::EmptyUser)
            } else {
                Ok(DestinationStep::Target(owned("--user-id"), trimmed))
            }
        },
        FeishuDestination::Chat { id } => {
            let trimmed = trim_str(id.as_str());
            if trimmed.as_str().is_empty() {
                Err(FeishuError::EmptyChat)
            } else {
                Ok(DestinationStep::Target(owned("--chat-id"), trimmed))
            }
        },
    }
}

/// The destination once the current user's `open_id` is known.
pub fn current_user_target(open_id: String) -> (r: DestinationStep)
    ensures
        r matches DestinationStep::Target(flag, target) && flag@ == "--user-id"@ && target == open_id,
{
    DestinationStep::Target(owned("--user-id"), open_id)
}

/// The views of a list of texts.
pub open spec fn texts(v: Seq<String>) -> Seq<Seq<char>> {
    v.map_values(|s: String| s@)
}

/// The arguments of `im +messages-send` for one sticker: sent as the user,
/// the image given relative to the sticker directory, idempotent per sticker.
pub open spec fn send_arguments_spec(flag: Seq<char>, target: Seq<char>, filename: Seq<char>, record_id: Seq<char>) -> Seq<Seq<char>> {
    seq![
        "im"@,
        "+messages-send"@,
        "--as"@,
        "user"@,
        flag,
        target,
        "--image"@,
        "./"@ + filename,
        "--idempotency-key"@,
        "wxsticker-"@ + record_id,
        "--format"@,
        "json"@,
    ]
}

/// The CLI arguments that send one sticker.
pub fn send_arguments(flag: &str, target: &str, filename: &str, record_id: &str) -> (r: Vec<String>)
    ensures
        texts(r@) == send_arguments_spec(flag@, target@, filename@, record_id@),
{
    let mut args: Vec<String> = Vec::new();
    args.push(owned("im"));
    args.push(owned("+messages-send"));
    args.push(owned("--as"));
    args.push(owned("user"));
    args.push(owned(flag));
    args.push(owned(target));
    args.push(owned("--image"));
    args.push(concat("./", filename));
    args.push(owned("--idempotency-key"));
    args.push(concat("wxsticker-", record_id));
    args.push(owned("--format"));
    args.push(owned("json"));
    assert(texts(args@) =~= send_arguments_spec(flag@, target@, filename@, record_id@));
    args
}

/// How sending one sticker ended.
#[derive(Debug)]
pub enum SendOutcome {
    /// Sent; the Feishu message id when the CLI reported one.
    Sent(Option<String>),
    /// Not sent, with the explanation.
    Failed(String),
}

/// Reads the outcome of `im +messages-send`.
pub fn send_outcome(result: &CliResult, payload: Option<&JsonValue>) -> (r: SendOutcome)
    ensures
        result.code == 0 ==> (r matches SendOutcome::Sent(id) && opt_text(id) == match opt_json(payload) {
            Some(v) => deep_string(v, seq!["message_id"@, "messageId"@]),
            None => None,
        }),
        result.code != 0 ==> (r matches SendOutcome::Failed(m) && m@ == error_text_spec(result.code, result.stdout@, result.stderr@)),
{
    if result.code == 0 {
        let keys: [&str; 2] = ["message_id", "messageId"];
        assert(key_views(keys@) =~= seq!["message_id"@, "messageId"@]);
        SendOutcome::Sent(find_deep_string(payload, keys.as_slice()))
    } else {
        SendOutcome::Failed(error_text(result))
    }
}

/// The records of a send request: all of them newest first, or only those
/// not yet sent.
pub open spec fn records_to_send_spec(listed: Seq<StickerRecord>, only_pending: bool) -> Seq<StickerRecord>
    decreases listed.len(),
{
    if listed.len() == 0 {
        listed
    } else if !only_pending || listed.last().feishu_state != FeishuSendState::Sent {
        records_to_send_spec(listed.drop_last(), only_pending).push(listed.last())
    } else {
        records_to_send_spec(listed.drop_last(), only_pending)
    }
}

/// The records to send, from the library's list.
pub fn records_to_send(listed: Vec<StickerRecord>, only_pending: bool) -> (r: Vec<StickerRecord>)
    ensures
        r@ == records_to_send_spec(listed@, only_pending),
{
    let mut out: Vec<StickerRecord> = Vec::new();
    let mut i: usize = 0;
    while i < listed.len()
        invariant
            i <= listed.len(),
            out@ == records_to_send_spec(listed@.take(i as int), only_pending),
        decreases listed.len() - i,
    {
        assert(listed@.take(i + 1).drop_last() == listed@.take(i as int));
        if !only_pending || listed[i].feishu_state != FeishuSendState::Sent {
            out.push(listed[i].clone());
        }
        i = i + 1;
    }
    assert(listed@.take(listed.len() as int) == listed@);
    out
}

/// The running tally of a batch.
pub struct SendBatch {
    total: usize,
    processed: usize,
    sent: usize,
    failed: usize,
}

/// A progress report for one processed sticker.
pub open spec fn progress_spec(
    p: FeishuSendProgress,
    current: usize,
    total: usize,
    record: StickerRecord,
    sent: usize,
    failed: usize,
    message: Seq<char>,
    done: bool,
) -> bool {
    &&& p.current == current
    &&& p.total == total
    &&& p.sticker_id == Some(record.id)
    &&& p.sent == sent
    &&& p.failed == failed
    &&& opt_text(p.message) == Some(message)
    &&& p.done == done
}

/// The report for one processed sticker.
pub fn progress(
    current: usize,
    total: usize,
    record: &StickerRecord,
    sent: usize,
    failed: usize,
    message: &str,
    done: bool,
) -> (r: FeishuSendProgress)
    ensures
        progress_spec(r, current, total, *record, sent, failed, message@, done),
{
    FeishuSendProgress {
        current,
        total,
        sticker_id: Some(record.id.clone()),
        sent,
        failed,
        message: Some(owned(message)),
        done,
    }
}

impl SendBatch {
    /// Stickers in the batch.
    pub closed spec fn total_count(&self) -> nat {
        self.total as nat
    }

    /// Stickers processed so far.
    pub closed spec fn processed_count(&self) -> nat {
        self.processed as nat
    }

    /// Stickers sent so far.
    pub closed spec fn sent_count(&self) -> nat {
        self.sent as nat
    }

    /// Stickers that failed so far.
    pub closed spec fn failed_count(&self) -> nat {
        self.failed as nat
    }

    /// Every processed sticker was either sent or failed.
    pub closed spec fn wf(&self) -> bool {
        self.sent + self.failed == self.processed && self.processed <= self.total
    }

    /// A batch of `total` stickers and its opening report (done at once when empty).
    pub fn new(total: usize) -> (r: (Self, FeishuSendProgress))
        ensures
            r.0.wf(),
            r.0.total_count() == total,
            r.0.processed_count() == 0,
            r.0.sent_count() == 0,
            r.0.failed_count() == 0,
            r.1.current == 0 && r.1.total == total && r.1.sticker_id is None && r.1.sent == 0 && r.1.failed == 0
                && r.1.message is None && r.1.done == (total == 0),
    {
        (
            SendBatch { total, processed: 0, sent: 0, failed: 0 },
            FeishuSendProgress { current: 0, total, sticker_id: None, sent: 0, failed: 0, message: None, done: total == 0 },
        )
    }

    /// Records the outcome of the next sticker and returns its report: a
    /// missing file or a failure counts as failed, a send as sent; the
    /// report of the last sticker is marked done.
    pub fn record(&mut self, record: &StickerRecord, outcome: &SendOutcome) -> (r: FeishuSendProgress)
        requires
            old(self).wf(),
            old(self).processed_count() < old(self).total_count(),
        ensures
            final(self).wf(),
            final(self).total_count() == old(self).total_count(),
            final(self).processed_count() == old(self).processed_count() + 1,
            outcome is Sent ==> final(self).sent_count() == old(self).sent_count() + 1
                && final(self).failed_count() == old(self).failed_count(),
            outcome is Failed ==> final(self).failed_count() == old(self).failed_count() + 1
                && final(self).sent_count() == old(self).sent_count(),
            progress_spec(
                r,
                final(self).processed_count() as usize,
                final(self).total_count() as usize,
                *record,
                final(self).sent_count() as usize,
                final(self).failed_count() as usize,
                match outcome {
                    SendOutcome::Sent(_) => "已发送"@,
                    SendOutcome::Failed(m) => m@,
                },
                final(self).processed_count() == final(self).total_count(),
            ),
    {
        self.processed = self.processed + 1;
        let message = match outcome {
            SendOutcome::Sent(_) => {
                self.sent = self.sent + 1;
                owned("已发送")
            },
            SendOutcome::Failed(m) => {
                self.failed = self.failed + 1;
                m.clone()
            },
        };
        progress(self.processed, self.total, record, self.sent, self.failed, message.as_str(), self.processed == self.total)
    }

    /// Whether to pause before the next sticker: only between stickers.
    pub fn pause_after(&self) -> (r: bool)
        ensures
            r == (self.processed_count() < self.total_count()),
    {
        self.processed < self.total
    }

    /// The report for a batch that failed before sending anything.
    pub fn aborted(total: usize, message: String) -> (r: FeishuSendProgress)
        ensures
            r.current == 0 && r.total == total && r.sticker_id is None && r.sent == 0 && r.failed == total
                && r.message == Some(message) && r.done,
    {
        FeishuSendProgress { current: 0, total, sticker_id: None, sent: 0, failed: total, message: Some(message), done: true }
    }
}

/// The explanation recorded when a sticker's file is missing.
pub fn missing_file_outcome() -> (r: SendOutcome)
    ensures
        r matches SendOutcome::Failed(m) && m@ == "本地表情文件不存在"@,
{
    SendOutcome::Failed(owned("本地表情文件不存在"))
}


// ------------------------------------------------------------------
// Installing
// ------------------------------------------------------------------

/// The steps of installing the CLI that are reported.
#[derive(Debug, Clone, Copy, PartialEq, Eq, Structural)]
pub enum InstallStep {
    /// Reading the latest release and its checksums.
    Resolving,
    /// Downloading the archive.
    Downloading,
    /// Unpacking and installing the verified archive.
    Installing,
    /// Installed.
    Done,
}

/// The report of an install step, without download attempt details.
pub open spec fn install_progress_holds(r: FeishuCliProgress, stage: Seq<char>, downloaded: u64, total: Option<u64>, message: Seq<char>, done: bool) -> bool {
    &&& r.stage@ == stage
    &&& r.downloaded == downloaded
    &&& r.total == total
    &&& r.message@ == message
    &&& r.done == done
    &&& r.attempt is None
    &&& r.max_attempts is None
    &&& r.source is None
}

/// The report of an install step, for `version` and an archive of `archive_size` bytes.
pub fn install_progress(step: InstallStep, version: &str, archive_size: u64) -> (r: FeishuCliProgress)
    ensures
        step == InstallStep::Resolving ==> install_progress_holds(r, "resolving"@, 0, None, "正在读取飞书官方版本与校验信息…"@, false),
        step == InstallStep::Downloading ==> install_progress_holds(r, "downloading"@, 0, None, "正在下载飞书 CLI "@ + version@ + "…"@, false),
        step == InstallStep::Installing ==> install_progress_holds(r, "installing"@, archive_size, Some(archive_size), "校验通过，正在安装组件…"@, false),
        step == InstallStep::Done ==> install_progress_holds(r, "done"@, archive_size, Some(archive_size), "飞书 CLI "@ + version@ + " 已安装并通过 SHA-256 校验"@, true),
{
    let (stage, downloaded, total, message, done) = match step {
        InstallStep::Resolving => (owned("resolving"), 0u64, None, owned("正在读取飞书官方版本与校验信息…"), false),
        InstallStep::Downloading => {
            let m = concat("正在下载飞书 CLI ", version);
            (owned("downloading"), 0u64, None, concat(m.as_str(), "…"), false)
        },
        InstallStep::Installing => (owned("installing"), archive_size, Some(archive_size), owned("校验通过，正在安装组件…"), false),
        InstallStep::Done => {
            let m = concat("飞书 CLI ", version);
            (owned("done"), archive_size, Some(archive_size), concat(m.as_str(), " 已安装并通过 SHA-256 校验"), true)
        },
    };
    FeishuCliProgress { stage, downloaded, total, message, done, attempt: None, max_attempts: None, source: None }
}

/// The status after installing `version`: it is the latest, no update is due.
pub fn installed_status(status: FeishuCliStatus, version: &str) -> (r: FeishuCliStatus)
    ensures
        r.installed == status.installed,
        r.version == status.version,
        r.authenticated == status.authenticated,
        r.detail == status.detail,
        r.source == status.source,
        r.executable_path == status.executable_path,
        opt_text(r.latest_version) == Some(version@),
        !r.update_available,
{
    FeishuCliStatus { latest_version: Some(owned(version)), update_available: false, ..status }
}

/// Whether a CLI installed under an older managed directory is to be moved
/// to the current one: only when the current one has no usable executable
/// and the older one has.
pub fn component_needs_migration(destination_usable: bool, source_usable: bool) -> (r: bool)
    ensures
        r == (!destination_usable && source_usable),
{
    !destination_usable && source_usable
}

/// The first `{` of a text.
pub open spec fn first_open_brace(s: Seq<char>) -> Option<int> {
    if exists|i: int| 0 <= i < s.len() && s[i] == '{' {
        Some(choose|i: int| 0 <= i < s.len() && s[i] == '{' && forall|j: int| 0 <= j < i ==> s[j] != '{')
    } else {
        None
    }
}

/// The last `}` of a text.
pub open spec fn last_close_brace(s: Seq<char>) -> Option<int> {
    if exists|i: int| 0 <= i < s.len() && s[i] == '}' {
        Some(choose|i: int| 0 <= i < s.len() && s[i] == '}' && forall|j: int| i < j < s.len() ==> s[j] != '}')
    } else {
        None
    }
}

/// Whether the last `}` of a text, when there is one, does not come before
/// its first `{`; slicing between them is then possible.
pub open spec fn braces_ordered(s: Seq<char>) -> bool {
    match (first_open_brace(s), last_close_brace(s)) {
        (Some(a), Some(b)) => a <= b,
        _ => true,
    }
}

/// The text from the first `{` to the last `}`, the JSON object that CLI
/// output is read from when the whole output is not JSON.
pub open spec fn json_candidate_spec(s: Seq<char>) -> Option<Seq<char>> {
    match (first_open_brace(s), last_close_brace(s)) {
        (Some(a), Some(b)) => Some(s.subrange(a, b + 1)),
        _ => None,
    }
}

/// Whether the braces of a text are in order.
pub fn braces_in_order(text: &str) -> (r: bool)
    ensures
        r == braces_ordered(text@),
{
    let cs = chars_of(text);
    let (a, b) = brace_positions(cs.as_slice());
    match (a, b) {
        (Some(x), Some(y)) => x <= y,
        _ => true,
    }
}

/// The positions of the first `{` and the last `}`.
fn brace_positions(cs: &[char]) -> (r: (Option<usize>, Option<usize>))
    ensures
        r.0 matches Some(a) ==> a < cs.len(),
        r.1 matches Some(b) ==> b < cs.len(),
        match r.0 {
            Some(a) => first_open_brace(cs@) == Some(a as int),
            None => first_open_brace(cs@) is None,
        },
        match r.1 {
            Some(b) => last_close_brace(cs@) == Some(b as int),
            None => last_close_brace(cs@) is None,
        },
{
    let mut first: Option<usize> = None;
    let mut i: usize = 0;
    while i < cs.len()
        invariant
            i <= cs.len(),
            first is None ==> forall|j: int| 0 <= j < i ==> cs@[j] != '{',
            first matches Some(a) ==> a < cs.len() && cs@[a as int] == '{' && forall|j: int| 0 <= j < a ==> cs@[j] != '{',
        decreases cs.len() - i,
    {
        if first.is_none() && cs[i] == '{' {
            first = Some(i);
        }
        i = i + 1;
    }
    proof {
        match first {
            Some(a) => {
                assert(exists|k: int| 0 <= k < cs@.len() && cs@[k] == '{');
                let c = choose|k: int| 0 <= k < cs@.len() && cs@[k] == '{' && forall|j: int| 0 <= j < k ==> cs@[j] != '{';
                assert(0 <= c < cs@.len() && cs@[c] == '{' && forall|j: int| 0 <= j < c ==> cs@[j] != '{') by {
                    assert(0 <= a < cs@.len() && cs@[a as int] == '{' && forall|j: int| 0 <= j < a ==> cs@[j] != '{');
                }
                if c < a {
                    assert(cs@[c] != '{');
                }
                if a < c {
                    assert(cs@[a as int] != '{');
                }
            },
            None => {},
        }
    }
    let mut last: Option<usize> = None;
    let mut k: usize = cs.len();
    while k > 0
        invariant
            k <= cs.len(),
            last is None ==> forall|j: int| k <= j < cs.len() ==> cs@[j] != '}',
            last matches Some(b) ==> b < cs.len() && cs@[b as int] == '}' && forall|j: int| b < j < cs.len() ==> cs@[j] != '}',
        decreases k,
    {
        if last.is_none() && cs[k - 1] == '}' {
            last = Some(k - 1);
        }
        k = k - 1;
    }
    proof {
        match last {
            Some(b) => {
                assert(exists|q: int| 0 <= q < cs@.len() && cs@[q] == '}');
                let c = choose|q: int| 0 <= q < cs@.len() && cs@[q] == '}' && forall|j: int| q < j < cs@.len() ==> cs@[j] != '}';
                assert(0 <= c < cs@.len() && cs@[c] == '}' && forall|j: int| c < j < cs@.len() ==> cs@[j] != '}') by {
                    assert(0 <= b < cs@.len() && cs@[b as int] == '}' && forall|j: int| b < j < cs@.len() ==> cs@[j] != '}');
                }
                if c < b {
                    assert(cs@[b as int] != '}');
                }
                if b < c {
                    assert(cs@[c] != '}');
                }
            },
            None => {},
        }
    }
    (first, last)
}

/// The text from the first `{` to the last `}` of CLI output, when it has
/// both; the braces must be in order, as slicing between them requires.
pub fn json_candidate(text: &str) -> (r: Option<String>)
    requires
        braces_ordered(text@),
    ensures
        opt_text(r) == json_candidate_spec(text@),
{
    let cs = chars_of(text);
    let (a, b) = brace_positions(cs.as_slice());
    match (a, b) {
        (Some(x), Some(y)) => {
            let mut out: Vec<char> = Vec::new();
            let mut i: usize = x;
            assert(cs@.subrange(x as int, x as int) =~= Seq::<char>::empty());
            while i <= y
                invariant
                    x <= i <= y + 1,
                    y < cs.len(),
                    out@ == cs@.subrange(x as int, i as int),
                decreases y + 1 - i,
            {
                out.push(cs[i]);
                i = i + 1;
                assert(cs@.subrange(x as int, i as int) == cs@.subrange(x as int, i - 1).push(cs@[i - 1]));
            }
            Some(string_from(out.as_slice()))
        },
        _ => None,
    }
}


/// Law: a download tries the domestic mirror first and GitHub Releases
/// after it, each `DOWNLOAD_ATTEMPTS_PER_SOURCE` times, and waits at most
/// two seconds before a retry.
pub proof fn law_download_sources(n: nat)
    requires
        1 <= n <= max_attempts_spec(),
    ensures
        n <= DOWNLOAD_ATTEMPTS_PER_SOURCE ==> source_label(attempt_source(n)) == "国内加速线路"@,
        n > DOWNLOAD_ATTEMPTS_PER_SOURCE ==> source_label(attempt_source(n)) == "GitHub Releases"@,
        1 <= attempt_of_source(n) <= DOWNLOAD_ATTEMPTS_PER_SOURCE,
        1 <= retry_delay_spec(attempt_of_source(n)) <= 2,
{
}


/// Law: the CLI may be downloaded over plain HTTPS from exactly these hosts:
/// the npm registry, GitHub and the two hosts GitHub redirects release
/// downloads to, and the npmmirror registry and CDN.
pub proof fn law_download_hosts(p: UrlParts)
    ensures
        (parts_plain_https(p) && download_host(parts_host(p))) <==> (parts_plain_https(p) && {
            let h = parts_host(p);
            ||| h == "registry.npmjs.org"@
            ||| h == "github.com"@
            ||| h == "objects.githubusercontent.com"@
            ||| h == "release-assets.githubusercontent.com"@
            ||| h == "registry.npmmirror.com"@
            ||| h == "cdn.npmmirror.com"@
        }),
{
}

/// Law: when a login answer carries the complete verification address
/// (`verification_uri_complete`, or `verificationUriComplete` when the first
/// is absent or empty) as a member of its top-level object, that address is
/// the one to open, whatever other address members it has; and when the
/// answer reports no user code, the one in that address's query is reported.
pub proof fn law_complete_verification_address_preferred(
    r: Result<PendingLogin, FeishuError>,
    members: Vec<(String, JsonValue)>,
    now_ms: u64,
    stage: Seq<char>,
    address: String,
)
    requires
        login_step_spec(r, Some(JsonValue::Object(members)), now_ms, stage),
        deep_string(JsonValue::Object(members), device_code_keys()) is Some,
        address@.len() > 0,
        valid_auth_url(address@),
        member(members@, "verification_uri_complete"@) == Some(JsonValue::Text(address)) || (member(
            members@,
            "verificationUriComplete"@,
        ) == Some(JsonValue::Text(address)) && !(member(members@, "verification_uri_complete"@) matches Some(
            JsonValue::Text(t),
        ) && t@.len() > 0)),
    ensures
        r matches Ok(p) && p.session.verification_url@ == address@,
        deep_string(JsonValue::Object(members), user_code_keys()) is None ==> (r matches Ok(p) && opt_text(
            p.session.user_code,
        ) == url_user_code(address@)),
{
    let keys = verification_url_keys();
    assert(keys[0] == "verification_uri_complete"@);
    assert(keys.drop_first()[0] == "verificationUriComplete"@);
    assert(keys.len() > 1);
    if member(members@, "verification_uri_complete"@) == Some(JsonValue::Text(address)) {
        assert(direct_string(members@, keys) == Some(address@));
    } else {
        assert(direct_string(members@, keys) == direct_string(members@, keys.drop_first()));
        assert(direct_string(members@, keys.drop_first()) == Some(address@));
    }
    assert(deep_string(JsonValue::Object(members), keys) == Some(address@));
}

} // verus!
