use vstd::prelude::*;

verus! {

/// Where a sticker stands in its journey to Feishu.
#[derive(Debug, Clone, Copy, PartialEq, Eq, Structural)]
pub enum FeishuSendState {
    Pending,
    Sending,
    Sent,
    Failed,
}

/// A copy of an optional text.
pub fn clone_opt_string(o: &Option<String>) -> (r: Option<String>)
    ensures
        r == *o,
{
    match o {
        Some(s) => Some(s.clone()),
        None => None,
    }
}

/// One sticker kept in the local library.
#[derive(Debug)]
pub struct StickerRecord {
    pub id: String,
    pub sha256: String,
    pub wechat_md5: Option<String>,
    pub filename: String,
    pub mime_type: String,
    pub bytes: u64,
    pub source_url: Option<String>,
    pub imported_at: u64,
    pub feishu_state: FeishuSendState,
    pub feishu_message_id: Option<String>,
    pub error_message: Option<String>,
}

impl Clone for StickerRecord {
    fn clone(&self) -> (r: Self)
        ensures
            r == *self,
    {
        StickerRecord {
            id: self.id.clone(),
            sha256: self.sha256.clone(),
            wechat_md5: clone_opt_string(&self.wechat_md5),
            filename: self.filename.clone(),
            mime_type: self.mime_type.clone(),
            bytes: self.bytes,
            source_url: clone_opt_string(&self.source_url),
            imported_at: self.imported_at,
            feishu_state: self.feishu_state,
            feishu_message_id: clone_opt_string(&self.feishu_message_id),
            error_message: clone_opt_string(&self.error_message),
        }
    }
}

/// What one round of message scanning brought into the library.
#[derive(Debug)]
pub struct StickerImportEvent {
    pub imported: usize,
    pub skipped: usize,
    pub unsupported: usize,
    pub latest: Option<StickerRecord>,
    pub warning: Option<String>,
}

/// The WeChat login state shown to the user.
#[derive(Debug, Clone)]
pub struct WechatLoginState {
    pub state: String,
}

/// A login QR code and the UUID it stands for.
#[derive(Debug, Clone)]
pub struct WechatQrResult {
    pub uuid: String,
    pub data_url: String,
}

/// Where the sticker library lives.
#[derive(Debug, Clone)]
pub struct StickerLibraryLocation {
    pub path: String,
    pub is_default: bool,
}

/// The outcome of moving the sticker library.
#[derive(Debug, Clone)]
pub struct StickerLibraryChangeResult {
    pub canceled: bool,
    pub path: String,
    pub is_default: bool,
    pub migrated_count: usize,
}

/// The outcome of a ZIP export.
#[derive(Debug, Clone)]
pub struct ExportResult {
    pub canceled: bool,
    pub path: Option<String>,
    pub count: Option<usize>,
}

/// What is known of the Feishu CLI.
#[derive(Debug)]
pub struct FeishuCliStatus {
    pub installed: bool,
    pub version: Option<String>,
    pub authenticated: bool,
    pub detail: Option<String>,
    pub source: Option<String>,
    pub executable_path: Option<String>,
    pub latest_version: Option<String>,
    pub update_available: bool,
}

impl Clone for FeishuCliStatus {
    fn clone(&self) -> (r: Self)
        ensures
            r == *self,
    {
        FeishuCliStatus {
            installed: self.installed,
            version: clone_opt_string(&self.version),
            authenticated: self.authenticated,
            detail: clone_opt_string(&self.detail),
            source: clone_opt_string(&self.source),
            executable_path: clone_opt_string(&self.executable_path),
            latest_version: clone_opt_string(&self.latest_version),
            update_available: self.update_available,
        }
    }
}

/// Progress of downloading and installing the Feishu CLI.
#[derive(Debug, Clone)]
pub struct FeishuCliProgress {
    pub stage: String,
    pub downloaded: u64,
    pub total: Option<u64>,
    pub message: String,
    pub done: bool,
    pub attempt: Option<usize>,
    pub max_attempts: Option<usize>,
    pub source: Option<String>,
}

/// The Feishu account the CLI acts for.
#[derive(Debug, Clone)]
pub struct FeishuSelf {
    pub open_id: String,
    pub name: Option<String>,
}

/// A pending device-code authorization.
#[derive(Debug)]
pub struct FeishuLoginSession {
    pub stage: String,
    pub verification_url: String,
    pub user_code: Option<String>,
    pub expires_at: Option<u64>,
}

impl Clone for FeishuLoginSession {
    fn clone(&self) -> (r: Self)
        ensures
            r == *self,
    {
        FeishuLoginSession {
            stage: self.stage.clone(),
            verification_url: self.verification_url.clone(),
            user_code: clone_opt_string(&self.user_code),
            expires_at: self.expires_at,
        }
    }
}

/// Either a finished status or a further authorization step.
#[derive(Debug, Clone)]
pub struct FeishuLoginAdvance {
    pub status: Option<FeishuCliStatus>,
    pub session: Option<FeishuLoginSession>,
}

/// Who receives the stickers sent to Feishu.
#[derive(Debug, Clone)]
pub enum FeishuDestination {
    SelfTarget,
    User { id: String },
    Chat { id: String },
}

/// A request to send stickers to Feishu.
#[derive(Debug, Clone)]
pub struct FeishuSendRequest {
    pub destination: FeishuDestination,
    pub only_pending: bool,
}

/// Progress of a batch sent to Feishu.
#[derive(Debug, Clone)]
pub struct FeishuSendProgress {
    pub current: usize,
    pub total: usize,
    pub sticker_id: Option<String>,
    pub sent: usize,
    pub failed: usize,
    pub message: Option<String>,
    pub done: bool,
}

/// One entry of the WeChat message synchronisation key.
#[derive(Debug, Clone, Copy, PartialEq, Eq, Structural)]
pub struct SyncKeyItem {
    pub key: i64,
    pub val: i64,
}

} // verus!
