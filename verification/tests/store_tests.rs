use sticker_relay::models::FeishuSendState;
use sticker_relay::store::{
    extension_for_mime, join_path, merge_records, paths_overlap, same_path, sniff_image_mime,
    StickerStore, StoreError,
};

const PNG: [u8; 9] = [0x89, 0x50, 0x4e, 0x47, 0x0d, 0x0a, 0x1a, 0x0a, 1];

#[test]
fn detects_supported_images() {
    assert_eq!(sniff_image_mime(b"GIF89a"), Some("image/gif"));
    assert_eq!(
        sniff_image_mime(&[0x89, 0x50, 0x4e, 0x47, 0x0d, 0x0a, 0x1a, 0x0a]),
        Some("image/png")
    );
    assert_eq!(sniff_image_mime(&[0xff, 0xd8, 0xff]), Some("image/jpeg"));
}

#[test]
fn deletes_sticker_record_and_file() {
    let mut store = StickerStore::new("/tmp/sticker-library".to_string());
    let record = store
        .add_buffer(&PNG, Some("image/png"), Some("test-md5".to_string()), None, 1)
        .record
        .expect("record");
    let file_path = store.get_file_path(&record.id, false).expect("file path");
    assert_eq!(file_path, format!("/tmp/sticker-library/stickers/{}", record.filename));

    let removed = store
        .delete_ids(std::slice::from_ref(&record.id))
        .expect("delete sticker");
    assert_eq!(removed.len(), 1);
    assert!(store.list().is_empty());
    assert_eq!(join_path(&store.sticker_directory(false), &removed[0].filename, false), file_path);
    assert_eq!(store.get_file_path(&record.id, false), None);
}

#[test]
fn the_same_image_is_stored_once() {
    let mut store = StickerStore::new("/lib".to_string());
    let first = store.add_buffer(&PNG, None, None, None, 5);
    assert!(first.added);
    let record = first.record.expect("record");
    assert_eq!(record.id.len(), 24);
    assert_eq!(record.sha256.len(), 64);
    assert_eq!(record.filename, format!("{}.png", record.sha256));
    assert_eq!(record.feishu_state, FeishuSendState::Pending);
    let second = store.add_buffer(&PNG, None, Some("md5".to_string()), None, 9);
    assert!(!second.added);
    assert_eq!(second.record.expect("held record").id, record.id);
    assert_eq!(store.list().len(), 1);
}

#[test]
fn refuses_empty_and_non_image_buffers() {
    let mut store = StickerStore::new("/lib".to_string());
    let empty = store.add_buffer(&[], Some("image/png"), None, None, 1);
    assert!(!empty.added && empty.record.is_none());
    let text = store.add_buffer(b"hello", Some("text/plain"), None, None, 1);
    assert!(!text.added && text.record.is_none());
    let declared = store.add_buffer(b"hello", Some("image/webp"), None, None, 1);
    assert!(declared.added);
    assert_eq!(declared.record.expect("record").mime_type, "image/webp");
}

#[test]
fn lists_newest_first() {
    let mut store = StickerStore::new("/lib".to_string());
    store.add_buffer(b"GIF89a1", None, None, None, 10);
    store.add_buffer(&[0xff, 0xd8, 0xff, 2], None, None, None, 30);
    store.add_buffer(&[0xff, 0xd8, 0xff, 3], None, None, None, 20);
    let times: Vec<u64> = store.list().iter().map(|r| r.imported_at).collect();
    assert_eq!(times, vec![30, 20, 10]);
}

#[test]
fn refuses_to_delete_a_sticker_being_sent() {
    let mut store = StickerStore::new("/lib".to_string());
    let record = store
        .add_buffer(&PNG, None, None, None, 1)
        .record
        .expect("record");
    assert!(store.mark_sending(&record.id));
    let refused = store.delete_ids(std::slice::from_ref(&record.id));
    assert!(matches!(refused, Err(StoreError::SendingInProgress)));
    assert_eq!(store.list().len(), 1);
    assert!(store.mark_sent(&record.id, Some("om_1".to_string())));
    let listed = store.get(&record.id).expect("record");
    assert_eq!(listed.feishu_state, FeishuSendState::Sent);
    assert_eq!(listed.feishu_message_id.as_deref(), Some("om_1"));
    assert!(!store.mark_failed("missing", "x".to_string()));
}

#[test]
fn failure_messages_are_truncated() {
    let mut store = StickerStore::new("/lib".to_string());
    let record = store
        .add_buffer(&PNG, None, None, None, 1)
        .record
        .expect("record");
    assert!(store.mark_failed(&record.id, "错".repeat(600)));
    let failed = store.get(&record.id).expect("record");
    assert_eq!(failed.feishu_state, FeishuSendState::Failed);
    assert_eq!(
        failed.error_message.as_deref().map(|m| m.chars().count()),
        Some(500)
    );
}

#[test]
fn paths_are_compared_per_platform() {
    assert!(same_path("/a/b/", "/a/b", false));
    assert!(!same_path("/A/b", "/a/b", false));
    assert!(same_path("C:/Data/Lib", "c:\\data\\lib\\", true));
    assert!(paths_overlap("/a/b", "/a/b/c", false));
    assert!(!paths_overlap("/a/b", "/a/bc", false));
    assert_eq!(join_path("/a", "b", false), "/a/b");
    assert_eq!(join_path("/a/", "b", false), "/a/b");
    assert_eq!(join_path("C:\\lib", "stickers", true), "C:\\lib\\stickers");
    assert_eq!(join_path("C:/lib/", "stickers", true), "C:/lib/stickers");
    assert_eq!(join_path("", "b", true), "b");
    assert_eq!(extension_for_mime("image/jpeg"), ".jpg");
}

#[test]
fn merging_libraries_keeps_the_moving_records() {
    let mut a = StickerStore::new("/a".to_string());
    let moved = a.add_buffer(&PNG, None, Some("moved".to_string()), None, 2).record.expect("record");
    let mut b = StickerStore::new("/b".to_string());
    let held = b.add_buffer(&PNG, None, Some("held".to_string()), None, 1).record.expect("record");
    let other = b.add_buffer(b"GIF89a", None, None, None, 3).record.expect("record");
    let merged = merge_records(vec![held, other.clone()], &[moved.clone()]);
    assert_eq!(merged.len(), 2);
    let same_digest: Vec<_> = merged.iter().filter(|r| r.sha256 == moved.sha256).collect();
    assert_eq!(same_digest.len(), 1);
    assert_eq!(same_digest[0].wechat_md5.as_deref(), Some("moved"));
}

#[test]
fn data_urls_carry_base64() {
    let mut store = StickerStore::new("/lib".to_string());
    let record = store.add_buffer(b"GIF89a", None, None, None, 1).record.expect("record");
    assert_eq!(
        store.get_data_url(&record.id, b"GIF89a"),
        Some("data:image/gif;base64,R0lGODlh".to_string())
    );
    assert_eq!(store.get_data_url("missing", b"x"), None);
}

#[test]
fn deleting_splits_the_library_by_id() {
    let mut store = StickerStore::new("/lib".to_string());
    let a = store.add_buffer(b"GIF89a1", None, None, None, 1).record.expect("a");
    let b = store.add_buffer(b"GIF89a2", None, None, None, 2).record.expect("b");
    let c = store.add_buffer(b"GIF89a3", None, None, None, 3).record.expect("c");
    let removed = store
        .delete_ids(&[b.id.clone(), "unknown".to_string()])
        .expect("delete");
    assert_eq!(removed.len(), 1);
    assert_eq!(removed[0].id, b.id);
    let kept: Vec<String> = store.list().into_iter().map(|r| r.id).collect();
    assert_eq!(kept, vec![c.id, a.id]);
    assert!(store.delete_ids(&[]).expect("nothing").is_empty());
}

#[test]
fn an_added_sticker_is_found_until_deleted() {
    let mut store = StickerStore::new("/lib".to_string());
    let first = store.add_buffer(&PNG, None, None, None, 1).record.expect("first");
    let gif = [b'G', b'I', b'F', b'8', b'7', b'a', 3];
    let second = store.add_buffer(&gif, None, None, None, 2).record.expect("second");
    assert_eq!(store.records()[0].id, second.id);
    assert_eq!(store.get(&second.id).expect("found").sha256, second.sha256);
    assert_eq!(store.get(&first.id).expect("found").sha256, first.sha256);
    store.delete_ids(&[second.id.clone()]).expect("delete");
    assert!(store.get(&second.id).is_none());
    assert!(store.get(&first.id).is_some());
}
