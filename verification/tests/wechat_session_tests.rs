use sticker_relay::json::{JsonNumber, JsonValue};
use sticker_relay::models::SyncKeyItem;
use sticker_relay::store::AddResult;
use sticker_relay::wechat::{
    base_request, check_init, complete_session, decoded_or_raw, emoji_urls_from, get_i64,
    init_url, is_asset_url, label_for_query, login_state, logout_url, poll_url, qr_image_url,
    require_success, session_warning_event, sync_messages, sync_url, warning_text, xml_field_text,
    ImportTally, RequestStage, ScanOutcome, SeenKeys, StickerDownload, WarningKind,
    WechatCollector, WechatError, WechatSession,
};

fn text(s: &str) -> JsonValue {
    JsonValue::Text(s.to_string())
}

fn number(n: i64) -> JsonValue {
    JsonValue::Number(JsonNumber {
        as_u64: if n >= 0 { Some(n as u64) } else { None },
        as_i64: Some(n),
        text: n.to_string(),
    })
}

fn object(members: Vec<(&str, JsonValue)>) -> JsonValue {
    JsonValue::Object(members.into_iter().map(|(k, v)| (k.to_string(), v)).collect())
}

fn session(uin: &str) -> WechatSession {
    WechatSession {
        uin: uin.to_string(),
        sid: "sid1".to_string(),
        skey: "@crypt_k".to_string(),
        pass_ticket: "pt".to_string(),
        device_id: "e000000000000001".to_string(),
        sync_key: vec![SyncKeyItem { key: 1, val: 10 }],
    }
}

#[test]
fn session_requests_carry_the_credentials() {
    let s = session("123");
    assert_eq!(
        sync_url(&s).expect("sync url"),
        "https://szfilehelper.weixin.qq.com/cgi-bin/mmwebwx-bin/webwxsync?sid=sid1&skey=%40crypt_k&pass_ticket=pt"
    );
    assert_eq!(
        init_url(&s, 1000).expect("init url"),
        "https://szfilehelper.weixin.qq.com/cgi-bin/mmwebwx-bin/webwxinit?r=-1001&lang=zh_CN&pass_ticket=pt&skey=%40crypt_k"
    );
    assert_eq!(
        logout_url("k").expect("logout url"),
        "https://szfilehelper.weixin.qq.com/cgi-bin/mmwebwx-bin/webwxlogout?redirect=1&type=0&skey=k"
    );
    assert_eq!(
        poll_url("ab==", 1, 5),
        "https://login.wx2.qq.com/cgi-bin/mmwebwx-bin/login?loginicon=true&uuid=ab%3D%3D&tip=1&appid=wx_webfilehelper&_=5"
    );
    assert_eq!(qr_image_url("ab=="), "https://login.weixin.qq.com/qrcode/ab==");
}

#[test]
fn the_base_request_reads_the_user_number() {
    let request = base_request(&session("123"));
    assert_eq!(request.uin, 123);
    assert_eq!(request.sid, "sid1");
    assert_eq!(request.skey, "@crypt_k");
    assert_eq!(request.device_id, "e000000000000001");
    assert_eq!(base_request(&session("12a")).uin, 0);
}

#[test]
fn session_setup_checks_the_init_answer_and_sync_key() {
    assert!(check_init(&object(vec![("BaseResponse", object(vec![("Ret", number(0))]))])).is_ok());
    assert!(check_init(&object(vec![])).is_ok());
    assert!(matches!(
        check_init(&object(vec![("BaseResponse", object(vec![("Ret", number(1100))]))])),
        Err(WechatError::InitRejected)
    ));
    assert!(matches!(complete_session(session("1"), Vec::new()), Err(WechatError::MissingSyncKey)));
    let next = vec![SyncKeyItem { key: 2, val: 20 }, SyncKeyItem { key: 3, val: 30 }];
    let complete = complete_session(session("1"), next.clone()).expect("session");
    assert_eq!(complete.sync_key, next);
    assert_eq!(complete.sid, "sid1");
}

#[test]
fn failed_requests_name_their_stage() {
    assert!(require_success(RequestStage::QrCode, true, "200".to_string()).is_ok());
    assert_eq!(
        require_success(RequestStage::QrCode, false, "500".to_string()).expect_err("failed").message(),
        "获取微信二维码失败（500）"
    );
    assert_eq!(
        require_success(RequestStage::QrImage, false, "404".to_string()).expect_err("failed").message(),
        "下载微信二维码失败（404）"
    );
    assert_eq!(
        require_success(RequestStage::SessionPage, false, "502".to_string()).expect_err("failed").message(),
        "建立微信会话失败（502）"
    );
    assert_eq!(
        require_success(RequestStage::SessionInit, false, "503".to_string()).expect_err("failed").message(),
        "初始化微信会话失败（503）"
    );
    assert_eq!(
        require_success(RequestStage::Logout, false, "403".to_string()).expect_err("failed").message(),
        "微信退出接口返回 403"
    );
}

#[test]
fn sync_answers_list_added_then_other_messages() {
    let data = object(vec![
        ("MsgList", JsonValue::Array(vec![text("c")])),
        ("AddMsgList", JsonValue::Array(vec![text("a"), text("b")])),
    ]);
    let items: Vec<String> = sync_messages(&data)
        .into_iter()
        .map(|v| match v {
            JsonValue::Text(t) => t.clone(),
            other => panic!("unexpected {:?}", other),
        })
        .collect();
    assert_eq!(items, vec!["a", "b", "c"]);
    assert!(sync_messages(&object(vec![("AddMsgList", text("x"))])).is_empty());
}

#[test]
fn the_collector_follows_its_session() {
    let mut collector = WechatCollector::new(None);
    assert_eq!(collector.status().state, "idle");
    assert!(matches!(collector.scan_session(), Err(ScanOutcome::SessionExpired(0))));
    collector.logged_in(session("7"));
    assert_eq!(collector.status().state, "logged-in");
    assert_eq!(collector.session().expect("session").uin, "7");
    collector.update_sync_key(Vec::new());
    assert_eq!(collector.scan_session().expect("session").sync_key, vec![SyncKeyItem { key: 1, val: 10 }]);
    collector.update_sync_key(vec![SyncKeyItem { key: 5, val: 50 }]);
    assert_eq!(collector.scan_session().expect("session").sync_key, vec![SyncKeyItem { key: 5, val: 50 }]);
    collector.reset();
    assert!(collector.session().is_none());
}

#[test]
fn album_stickers_warn_once_with_the_tip() {
    let mut collector = WechatCollector::new(None);
    let mut tally = ImportTally::new();
    collector.record_unsupported(&mut tally, "md5:a".to_string(), false);
    assert_eq!(tally.unsupported, 1);
    assert!(tally.warning.is_none());
    collector.record_unsupported(&mut tally, "md5:b".to_string(), true);
    assert_eq!(tally.unsupported, 2);
    let tip = tally.warning.clone().expect("tip");
    assert!(tip.starts_with("这是微信专辑或表情商店表情。"));
    collector.record_unsupported(&mut tally, "md5:c".to_string(), true);
    assert_eq!(tally.warning, Some(tip));
    let event = tally.event().expect("event");
    assert_eq!(event.unsupported, 3);
    assert!(ImportTally::new().event().is_none());
}

#[test]
fn handled_keys_can_be_forgotten() {
    let mut keys = SeenKeys::new();
    assert!(!keys.contains("a"));
    keys.insert("a".to_string());
    keys.insert("b".to_string());
    keys.insert("a".to_string());
    assert!(keys.contains("a") && keys.contains("b"));
    keys.remove("a");
    assert!(!keys.contains("a") && keys.contains("b"));
    keys.clear();
    assert!(!keys.contains("b"));
}

#[test]
fn warnings_say_what_failed() {
    assert_eq!(warning_text(WarningKind::SaveFailed, "disk"), "保存微信登录状态失败：disk");
    assert_eq!(warning_text(WarningKind::ClearFailed, "disk"), "清理失效登录状态失败：disk");
    assert_eq!(warning_text(WarningKind::LoginSaveFailed, "disk"), "微信已连接，但登录状态保存失败：disk");
    assert_eq!(warning_text(WarningKind::RestoreSaveFailed, "disk"), "恢复成功，但刷新登录状态失败：disk");
    let event = session_warning_event("w".to_string());
    assert_eq!((event.imported, event.skipped, event.unsupported), (0, 0, 0));
    assert_eq!(event.warning.as_deref(), Some("w"));
}

#[test]
fn sticker_urls_are_collected_once_each() {
    assert!(is_asset_url("https://emoji.qpic.cn/a"));
    assert!(is_asset_url("http://x.qq.com/b"));
    assert!(!is_asset_url("ftp://emoji.qpic.cn/a"));
    assert!(!is_asset_url("https://example.com/a"));
    let groups = vec![
        Some("https://emoji.qpic.cn/a".to_string()),
        None,
        Some("https://example.com/x".to_string()),
    ];
    let matches = vec!["https://emoji.qpic.cn/a".to_string(), "https://vweixinf.tc.qq.com/b".to_string()];
    assert_eq!(
        emoji_urls_from(&groups, &matches),
        vec!["https://emoji.qpic.cn/a".to_string(), "https://vweixinf.tc.qq.com/b".to_string()]
    );
}

#[test]
fn message_image_queries_are_labelled() {
    let pairs = |v: &[(&str, &str)]| v.iter().map(|(a, b)| (a.to_string(), b.to_string())).collect::<Vec<_>>();
    assert_eq!(label_for_query(&pairs(&[("MsgID", "1"), ("type", "big")])), "微信表情原图接口");
    assert_eq!(label_for_query(&pairs(&[("MsgID", "1")])), "微信消息图片接口");
    assert_eq!(label_for_query(&pairs(&[("type", "big")])), "微信旧版图片接口");
}

#[test]
fn xml_fields_prefer_cdata_then_decode() {
    assert_eq!(xml_field_text(Some("c".to_string()), Some("p".to_string())), "c");
    assert_eq!(xml_field_text(None, Some("p".to_string())), "p");
    assert_eq!(xml_field_text(None, None), "");
    assert_eq!(decoded_or_raw(Some("a b".to_string()), "a%20b".to_string()), "a b");
    assert_eq!(decoded_or_raw(None, "a%ffb".to_string()), "a%ffb");
}

#[test]
fn message_fields_are_read_as_integers() {
    let message = object(vec![("MsgType", number(47)), ("Content", text("47"))]);
    assert_eq!(get_i64(&message, "MsgType"), Some(47));
    assert_eq!(get_i64(&message, "Content"), None);
    assert_eq!(get_i64(&message, "Missing"), None);
    assert_eq!(login_state("scanned").state, "scanned");
}

#[test]
fn unreadable_answers_are_noted() {
    let mut download = StickerDownload::new(vec!["https://emoji.qpic.cn/a".to_string()]);
    let (_, source) = download.next_url().expect("url");
    download.read_failed(source);
    let kept = download.stored(source, AddResult { added: false, record: None });
    assert!(kept.is_none());
    assert_eq!(
        download.diagnostic().as_deref(),
        Some("微信 CDN响应读取失败；微信 CDN图片无法写入本地表情库")
    );
}

#[test]
fn uuids_are_percent_encoded_byte_by_byte() {
    assert_eq!(
        poll_url("é ~a-Z_.", 0, 1),
        "https://login.wx2.qq.com/cgi-bin/mmwebwx-bin/login?loginicon=true&uuid=%C3%A9%20~a-Z_.&tip=0&appid=wx_webfilehelper&_=1"
    );
}
