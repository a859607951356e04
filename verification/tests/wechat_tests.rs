use sticker_relay::json::{JsonNumber, JsonValue};
use sticker_relay::store::{AddResult, StickerStore};
use sticker_relay::wechat::{
    check_session_version, create_device_id, decode_sticker_xml_text, device_id_for,
    extract_emoji_md5, extract_emoji_urls, is_product_sticker_message, is_sticker_asset_url,
    login_page_url, message_image_urls, normalize_sticker_url, parse_script_number,
    parse_script_string, parse_xml_field, poll_decision, poll_step, qr_login_url, qr_result, qr_uuid, uuid_decision,
    rank_urls, sanitize_sticker_source_url, scan_outcome, scanner_step, session_from_login_page,
    sticker_download_source_label, sticker_download_urls, value_to_string, HttpFailure,
    ImportTally, MessagePlan, PollStep, ScanOutcome, StickerDownload, WechatCollector,
    WechatError, WechatSession,
};

fn text(s: &str) -> JsonValue {
    JsonValue::Text(s.to_string())
}

fn number(n: i64) -> JsonValue {
    JsonValue::Number(JsonNumber {
        as_u64: if n >= 0 { Some(n as u64) } else { None },
        as_i64: Some(n),
        text: n.to_string(),
    })
}

fn object(members: Vec<(&str, JsonValue)>) -> JsonValue {
    JsonValue::Object(members.into_iter().map(|(k, v)| (k.to_string(), v)).collect())
}

#[test]
fn extracts_wechat_sticker_metadata() {
    let content = r#"&lt;emoji md5=\"0123456789abcdef0123456789abcdef\" cdnurl=\"https://emoji.qpic.cn/example.gif\" /&gt;"#;
    assert_eq!(
        extract_emoji_md5(content).as_deref(),
        Some("0123456789abcdef0123456789abcdef")
    );
    assert_eq!(
        extract_emoji_urls(content),
        vec!["https://emoji.qpic.cn/example.gif"]
    );
}

#[test]
fn prefers_authenticated_message_image_for_store_stickers() {
    let content = r#"<msg><emoji md5="0123456789abcdef0123456789abcdef" productid="com.tencent.xin.emoticon.album" cdnurl="https://emoji.qpic.cn/wx_emoji/direct" encrypturl="https://emoji.qpic.cn/wx_emoji/encrypted" aeskey="a911cc2ec96ddb781b5ca85d24143642" /></msg>"#;
    let urls = sticker_download_urls(content, Some("123456789"), "@crypt_skey");

    let fallback = url::Url::parse(&urls[0]).expect("message image URL");
    assert_eq!(fallback.path(), "/cgi-bin/mmwebwx-bin/webwxgetmsgimg");
    assert!(fallback
        .query_pairs()
        .any(|(name, value)| name == "MsgID" && value == "123456789"));
    assert!(fallback
        .query_pairs()
        .any(|(name, value)| name == "skey" && value == "@crypt_skey"));
    assert!(fallback
        .query_pairs()
        .any(|(name, value)| name == "mmweb_appid" && value == "wx_webfilehelper"));
    assert!(fallback
        .query_pairs()
        .any(|(name, value)| name == "type" && value == "big"));
    let stored_source = sanitize_sticker_source_url(&urls[0]);
    assert!(!stored_source.contains("crypt_skey"));
    assert!(!stored_source.contains("123456789"));
    assert_eq!(
        url::Url::parse(&stored_source).expect("sanitized source").path(),
        "/cgi-bin/mmwebwx-bin/webwxgetmsgimg"
    );
    assert!(urls.iter().any(|url| url.ends_with("/direct")));
    assert!(urls.iter().any(|url| url.ends_with("/encrypted")));
}

#[test]
fn recognizes_product_sticker_placeholders_as_web_unsupported() {
    let message = object(vec![
        ("MsgType", number(1)),
        ("ImgStatus", number(2)),
        ("HasProductId", number(1)),
        ("Content", text("该类型暂不支持，请在手机上查看")),
    ]);
    let content = match message.get("Content") {
        Some(JsonValue::Text(c)) => c.clone(),
        _ => panic!("content"),
    };
    assert!(is_product_sticker_message(&message, &content));
}

#[test]
fn album_flags_alone_mark_a_product_sticker() {
    let message = object(vec![("MsgType", number(1)), ("ImgStatus", number(2)), ("HasProductId", number(1))]);
    assert!(is_product_sticker_message(&message, ""));
    let plain = object(vec![("MsgType", number(1)), ("ImgStatus", number(2))]);
    assert!(!is_product_sticker_message(&plain, ""));
}

#[test]
fn decodes_and_cleans_sticker_urls() {
    assert_eq!(decode_sticker_xml_text("&lt;a&gt; &quot;&#39;&amp;lt;"), "<a> \"'&lt;");
    assert_eq!(normalize_sticker_url("  https://x.qq.com/a\\\"\\\\ "), "https://x.qq.com/a");
    assert!(is_sticker_asset_url("HTTPS://EMOJI.QPIC.CN/a"));
    assert!(!is_sticker_asset_url("ftp://emoji.qpic.cn/a"));
    assert!(!is_sticker_asset_url("https://example.com/a"));
}

#[test]
fn md5_is_lower_cased() {
    assert_eq!(
        extract_emoji_md5(r#"<emoji MD5="0123456789ABCDEF0123456789ABCDEF"/>"#).as_deref(),
        Some("0123456789abcdef0123456789abcdef")
    );
    assert_eq!(extract_emoji_md5("<emoji/>"), None);
}

#[test]
fn emoji_urls_are_listed_once() {
    let content = r#"<emoji cdnurl="https://emoji.qpic.cn/a" thumburl="https://emoji.qpic.cn/a"/> https://emoji.qpic.cn/b https://example.com/c"#;
    assert_eq!(
        extract_emoji_urls(content),
        vec!["https://emoji.qpic.cn/a".to_string(), "https://emoji.qpic.cn/b".to_string()]
    );
}

#[test]
fn ranks_urls_by_preference_and_drops_neighbouring_repeats() {
    let ranked = rank_urls(vec![
        "https://x/thumb".to_string(),
        "https://x/20401/a".to_string(),
        "https://x/plain".to_string(),
        "https://x/cgi-bin/webwxgetmsgimg?a".to_string(),
        "https://x/plain".to_string(),
    ]);
    assert_eq!(
        ranked,
        vec![
            "https://x/cgi-bin/webwxgetmsgimg?a".to_string(),
            "https://x/20401/a".to_string(),
            "https://x/plain".to_string(),
            "https://x/thumb".to_string(),
        ]
    );
}

#[test]
fn message_image_urls_offer_three_forms() {
    let urls = message_image_urls("42", "k");
    assert_eq!(urls.len(), 3);
    assert!(urls[0].ends_with("MsgID=42&skey=k&mmweb_appid=wx_webfilehelper&type=big"));
    assert!(urls[1].ends_with("MsgID=42&skey=k&mmweb_appid=wx_webfilehelper"));
    assert!(urls[2].ends_with("msgid=42&skey=k"));
}

#[test]
fn names_download_sources() {
    assert_eq!(sticker_download_source_label("https://emoji.qpic.cn/a"), "微信 CDN");
    assert_eq!(
        sticker_download_source_label("https://h/webwxgetmsgimg?MsgID=1&type=big"),
        "微信表情原图接口"
    );
    assert_eq!(
        sticker_download_source_label("https://h/webwxgetmsgimg?MsgID=1"),
        "微信消息图片接口"
    );
    assert_eq!(
        sticker_download_source_label("https://h/webwxgetmsgimg?msgid=1"),
        "微信旧版图片接口"
    );
    assert_eq!(sticker_download_source_label("/webwxgetmsgimg"), "微信消息图片接口");
}

#[test]
fn reads_login_scripts() {
    assert_eq!(parse_script_number("window.code = 201;"), Some(201));
    assert_eq!(parse_script_number("window.code=x"), None);
    assert_eq!(
        parse_script_string(r#"window.QRLogin.uuid = "abc=";"#, "window.QRLogin.uuid").as_deref(),
        Some("abc=")
    );
    assert_eq!(
        parse_script_string(r#"windowXQRLogin.uuid = "abc";"#, "window.QRLogin.uuid"),
        None
    );
}

#[test]
fn reads_login_xml_fields() {
    let xml = "<error><ret>0</ret><skey><![CDATA[@crypt_1]]></skey><wxsid>a%2Bb</wxsid><wxuin>7</wxuin><pass_ticket>p</pass_ticket></error>";
    assert_eq!(parse_xml_field(xml, "skey"), "@crypt_1");
    assert_eq!(parse_xml_field(xml, "wxsid"), "a+b");
    assert_eq!(parse_xml_field(xml, "missing"), "");
    let session = session_from_login_page(xml, "e1".to_string()).expect("session");
    assert_eq!(session.uin, "7");
    assert_eq!(session.device_id, "e1");
    assert!(session.sync_key.is_empty());
    assert!(matches!(
        session_from_login_page("<ret>1203</ret>", "e".to_string()),
        Err(WechatError::LoginRejected(ret)) if ret == "1203"
    ));
    assert!(matches!(
        session_from_login_page("<ret>0</ret><wxuin>1</wxuin>", "e".to_string()),
        Err(WechatError::IncompleteCredentials)
    ));
}

#[test]
fn qr_login_checks_the_uuid() {
    assert!(matches!(qr_uuid("nothing"), Err(WechatError::MissingUuid)));
    assert!(matches!(
        qr_uuid("window.QRLogin.code = 200;"),
        Err(WechatError::UnreadableUuid)
    ));
    assert!(matches!(
        qr_uuid(r#"window.QRLogin.code = 200; window.QRLogin.uuid = "a b";"#),
        Err(WechatError::InvalidUuid)
    ));
    assert_eq!(
        qr_uuid(r#"window.QRLogin.code = 200; window.QRLogin.uuid = "Ab_9==";"#).expect("uuid"),
        "Ab_9=="
    );
    let url = qr_login_url(5);
    assert!(url.starts_with("https://login.wx2.qq.com/jslogin?appid=wx_webfilehelper&redirect_uri=https%253A%252F%252F"));
    assert!(url.ends_with("&fun=new&lang=zh_CN&_=5"));
}

#[test]
fn qr_images_must_be_real_images() {
    let mut png = vec![0x89, 0x50, 0x4e, 0x47, 0x0d, 0x0a, 0x1a, 0x0a];
    assert!(matches!(qr_result("u".to_string(), &png), Err(WechatError::QrNotImage)));
    png.resize(100, 0);
    let result = qr_result("u".to_string(), &png).expect("qr");
    assert!(result.data_url.starts_with("data:image/png;base64,iVBORw0KGgo"));
}

#[test]
fn poll_answers_map_to_login_states() {
    let state = |r: Result<PollStep, WechatError>| match r {
        Ok(PollStep::State(s)) => s.state,
        _ => "other".to_string(),
    };
    assert_eq!(state(poll_step(None)), "waiting");
    assert_eq!(state(poll_step(Some("window.code=201;"))), "scanned");
    assert_eq!(state(poll_step(Some("window.code=400;"))), "expired");
    assert_eq!(state(poll_step(Some("window.code=408;"))), "waiting");
    assert!(matches!(poll_step(Some("window.code=200;")), Err(WechatError::MissingRedirect)));
    assert!(matches!(
        poll_step(Some(r#"window.code=200; window.redirect_uri="https://x/?ticket=1";"#)),
        Ok(PollStep::Confirmed(u)) if u == "https://x/?ticket=1"
    ));
}

#[test]
fn login_page_adds_missing_defaults() {
    let url = login_page_url("https://x/cgi?ticket=t&lang=en").expect("page");
    assert_eq!(
        url,
        "https://szfilehelper.weixin.qq.com/cgi-bin/mmwebwx-bin/webwxnewloginpage?ticket=t&lang=en&fun=new&version=v2"
    );
    assert!(matches!(login_page_url("not a url"), Err(WechatError::InvalidUrl(_))));
}

#[test]
fn sync_status_decides_the_session() {
    let active = object(vec![("BaseResponse", object(vec![("Ret", number(0))]))]);
    assert_eq!(scan_outcome(&active).expect("status"), ScanOutcome::Active);
    let ended = object(vec![("BaseResponse", object(vec![("Ret", number(1101))]))]);
    assert_eq!(scan_outcome(&ended).expect("status"), ScanOutcome::SessionExpired(1101));
    assert!(matches!(scan_outcome(&object(vec![])), Err(WechatError::MissingSyncStatus)));
}

#[test]
fn device_ids_have_fifteen_digits() {
    assert_eq!(device_id_for(42), "e000000000000042");
    let id = create_device_id();
    assert_eq!(id.len(), 16);
    assert!(id.starts_with('e'));
    assert!(id[1..].chars().all(|c| c.is_ascii_digit()));
}

#[test]
fn message_ids_are_written_as_text() {
    assert_eq!(value_to_string(&text("1\"2")), "1\"2");
    assert_eq!(value_to_string(&number(-7)), "-7");
    assert_eq!(value_to_string(&JsonValue::Null), "null");
    assert_eq!(
        value_to_string(&JsonValue::Array(vec![text("a\"\n"), JsonValue::Bool(true)])),
        "[\"a\\\"\\n\",true]"
    );
    assert_eq!(value_to_string(&object(vec![("k", number(1))])), "{\"k\":1}");
}

#[test]
fn session_versions_are_checked() {
    assert!(check_session_version(1).is_ok());
    assert_eq!(
        check_session_version(2).expect_err("version").message(),
        "不支持的微信登录状态版本：2"
    );
}

fn session() -> WechatSession {
    WechatSession {
        uin: "1".to_string(),
        sid: "s".to_string(),
        skey: "k".to_string(),
        pass_ticket: "p".to_string(),
        device_id: "e".to_string(),
        sync_key: Vec::new(),
    }
}

fn sticker_message(md5: &str) -> JsonValue {
    object(vec![
        ("ToUserName", text("filehelper")),
        ("MsgType", number(47)),
        ("NewMsgId", number(99)),
        (
            "Content",
            text(&format!("<emoji md5=\"{md5}\" cdnurl=\"https://emoji.qpic.cn/x\"/>")),
        ),
    ])
}

#[test]
fn a_sticker_is_imported_once_until_it_is_forgotten() {
    let md5 = "0123456789abcdef0123456789abcdef";
    let mut collector = WechatCollector::new(Some(session()));
    assert_eq!(collector.status().state, "restoring");
    let message = sticker_message(md5);
    let plan = collector.plan_message(&message, "k");
    let (key, urls) = match plan {
        MessagePlan::Download { key, urls, .. } => (key, urls),
        _ => panic!("download expected"),
    };
    assert_eq!(key, format!("md5:{md5}"));
    assert_eq!(urls[0], "https://szfilehelper.weixin.qq.com/cgi-bin/mmwebwx-bin/webwxgetmsgimg?MsgID=99&skey=k&mmweb_appid=wx_webfilehelper&type=big");

    let mut store = StickerStore::new("/lib".to_string());
    let result = store.add_buffer(b"GIF89a", None, Some(md5.to_string()), None, 1);
    let mut tally = ImportTally::new();
    collector.record_download(&mut tally, key, Some(result), None, 47, 0, 0);
    assert_eq!(tally.imported, 1);
    assert!(matches!(collector.plan_message(&message, "k"), MessagePlan::Skip));

    collector.forget_sticker_md5s(&[md5.to_string()]);
    assert!(matches!(collector.plan_message(&message, "k"), MessagePlan::Download { .. }));
    let event = tally.event().expect("event");
    assert_eq!(event.imported, 1);
}

#[test]
fn messages_for_others_and_plain_texts_are_skipped() {
    let collector = WechatCollector::new(None);
    assert_eq!(collector.status().state, "idle");
    let other = object(vec![("ToUserName", text("someone")), ("MsgType", number(47)), ("Content", text("x"))]);
    assert!(matches!(collector.plan_message(&other, "k"), MessagePlan::Skip));
    let plain = object(vec![("ToUserName", text("filehelper")), ("MsgType", number(1)), ("Content", text("hi"))]);
    assert!(matches!(collector.plan_message(&plain, "k"), MessagePlan::Skip));
    let album = object(vec![
        ("ToUserName", text("filehelper")),
        ("MsgType", number(1)),
        ("Content", text("该类型暂不支持")),
    ]);
    assert!(matches!(
        collector.plan_message(&album, "k"),
        MessagePlan::Unsupported { product: true, .. }
    ));
}

#[test]
fn failed_downloads_are_counted_and_explained() {
    let mut collector = WechatCollector::new(None);
    let mut tally = ImportTally::new();
    collector.record_download(&mut tally, "m".to_string(), None, Some("x".to_string()), 47, 2, 1);
    assert_eq!(tally.unsupported, 1);
    assert_eq!(
        tally.warning.as_deref(),
        Some("微信表情下载失败（消息类型 47，图片状态 2，专辑标记 1）：x")
    );
    let stored = AddResult { added: false, record: None };
    collector.record_download(&mut tally, "n".to_string(), Some(stored), Some("y".to_string()), 47, 0, 0);
    assert_eq!(tally.unsupported, 2);
    assert_eq!(
        tally.warning.as_deref(),
        Some("微信表情下载失败（消息类型 47，图片状态 2，专辑标记 1）：x")
    );
}

#[test]
fn download_diagnostics_are_joined() {
    let mut download = StickerDownload::new(vec!["https://emoji.qpic.cn/a".to_string()]);
    let (url, source) = download.next_url().expect("url");
    assert_eq!(url, "https://emoji.qpic.cn/a");
    download.http_failed(source, HttpFailure::Status(404));
    download.http_failed(source, HttpFailure::Timeout);
    assert!(!download.check_image(source, b"<html>", Some("text/html")));
    assert!(download.next_url().is_none());
    assert_eq!(
        download.diagnostic().as_deref(),
        Some("微信 CDN返回 HTTP 404；微信 CDN请求超时；微信 CDN返回非图片内容（text/html，6 字节）")
    );
}

#[test]
fn the_scanner_saves_warns_and_stops() {
    let active = scanner_step(&Ok(ScanOutcome::Active), 30000, None);
    assert!(active.persist && !active.stop);
    let quiet = scanner_step(&Ok(ScanOutcome::Active), 100, None);
    assert!(!quiet.persist);
    let expired = scanner_step(&Ok(ScanOutcome::SessionExpired(1101)), 0, None);
    assert!(expired.stop && expired.reset);
    assert_eq!(expired.warning.as_deref(), Some("微信登录已失效（1101），请重新扫码。"));
    let failed = scanner_step(&Err("net".to_string()), 0, Some(100));
    assert!(failed.warning.is_none());
    let reported = scanner_step(&Err("net".to_string()), 0, None);
    assert_eq!(reported.warning.as_deref(), Some("net"));
}

#[test]
fn restoring_ends_with_the_first_round() {
    let mut collector = WechatCollector::new(Some(session()));
    assert!(collector.begin_restore());
    let action = collector.finish_restore(&Ok(ScanOutcome::SessionExpired(1)));
    assert!(action.reset && !action.start_scanner);
    assert_eq!(collector.status().state, "idle");
    let mut empty = WechatCollector::new(None);
    assert!(!empty.begin_restore());
}

#[test]
fn poll_codes_decide_the_login_state() {
    let state = |r: Result<PollStep, WechatError>| match r {
        Ok(PollStep::State(s)) => s.state,
        other => panic!("unexpected {:?}", other),
    };
    assert_eq!(state(poll_decision(Some(201), None)), "scanned");
    assert_eq!(state(poll_decision(Some(400), Some("x".into()))), "expired");
    assert_eq!(state(poll_decision(Some(408), None)), "waiting");
    assert_eq!(state(poll_decision(None, None)), "waiting");
    assert!(matches!(poll_decision(Some(200), Some("https://r".into())), Ok(PollStep::Confirmed(u)) if u == "https://r"));
    assert!(matches!(poll_decision(Some(200), None), Err(WechatError::MissingRedirect)));
}

#[test]
fn qr_answers_yield_a_uuid_only_when_well_formed() {
    assert!(matches!(uuid_decision(false, Some("abc".into()), true), Err(WechatError::MissingUuid)));
    assert!(matches!(uuid_decision(true, None, false), Err(WechatError::UnreadableUuid)));
    assert!(matches!(uuid_decision(true, Some("a b".into()), false), Err(WechatError::InvalidUuid)));
    assert_eq!(uuid_decision(true, Some("gZ1w==".into()), true).expect("uuid"), "gZ1w==");
}
