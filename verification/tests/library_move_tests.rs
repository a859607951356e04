use sticker_relay::digest::sha256_hex_of;
use sticker_relay::store::{
    normalized_for_compare, AddPlan, FileCopy, MigrationPlan, StickerStore, StoreError,
};

const PNG: [u8; 9] = [0x89, 0x50, 0x4e, 0x47, 0x0d, 0x0a, 0x1a, 0x0a, 1];
const GIF: [u8; 7] = [b'G', b'I', b'F', b'8', b'9', b'a', 2];

fn library_with_two() -> StickerStore {
    let mut store = StickerStore::new("/old".to_string());
    store.add_buffer(&PNG, None, None, None, 1);
    store.add_buffer(&GIF, None, None, None, 2);
    store
}

#[test]
fn a_library_names_its_index_and_sticker_directory() {
    let store = StickerStore::new("/lib/".to_string());
    assert_eq!(store.root_directory(), "/lib/");
    assert_eq!(store.index_path(false), "/lib/library.json");
    assert_eq!(store.sticker_directory(false), "/lib/stickers");
    assert!(store.records().is_empty());
    let windows = StickerStore::new("C:\\Lib".to_string());
    assert_eq!(windows.index_path(true), "C:\\Lib\\library.json");
    assert_eq!(windows.sticker_directory(true), "C:\\Lib\\stickers");
}

#[test]
fn moving_the_library_plans_a_copy_of_every_file() {
    let store = library_with_two();
    assert!(matches!(store.plan_migration("relative", false, false), Err(StoreError::NotAbsolute)));
    assert!(matches!(store.plan_migration("/old/inner", true, false), Err(StoreError::OverlappingLibraries)));
    assert!(matches!(store.plan_migration("/", true, false), Err(StoreError::OverlappingLibraries)));
    match store.plan_migration("/old/", true, false).expect("plan") {
        MigrationPlan::Unchanged(result) => {
            assert_eq!(result.previous_root, "/old");
            assert_eq!(result.previous_records.len(), 2);
            assert_eq!(result.migrated_count, 0);
        },
        other => panic!("unexpected {:?}", other),
    }
    match store.plan_migration("/new", true, false).expect("plan") {
        MigrationPlan::Copy { destination, sticker_directory, index_path, copies } => {
            assert_eq!(destination, "/new");
            assert_eq!(sticker_directory, "/new/stickers");
            assert_eq!(index_path, "/new/library.json");
            assert_eq!(copies.len(), 2);
            let first = &store.records()[0];
            assert_eq!(copies[0].source, format!("/old/stickers/{}", first.filename));
            assert_eq!(copies[0].target, format!("/new/stickers/{}", first.filename));
            assert_eq!(copies[0].sha256, first.sha256);
        },
        other => panic!("unexpected {:?}", other),
    }
}

#[test]
fn windows_paths_compare_without_case_or_trailing_separators() {
    assert_eq!(normalized_for_compare("C:/Users/Me/Lib/", true), "c:\\users\\me\\lib");
    assert_eq!(normalized_for_compare("/Users/Me/Lib//", false), "/Users/Me/Lib");
    let store = StickerStore::new("C:\\Lib".to_string());
    assert!(matches!(store.plan_migration("c:/lib/", true, true), Ok(MigrationPlan::Unchanged(_))));
}

#[test]
fn an_existing_target_file_must_hold_the_same_image() {
    let copy = FileCopy {
        filename: "a.png".to_string(),
        sha256: sha256_hex_of(&PNG),
        source: "/old/stickers/a.png".to_string(),
        target: "/new/stickers/a.png".to_string(),
    };
    assert!(StickerStore::check_copy_target(&copy, &PNG).is_ok());
    let refused = StickerStore::check_copy_target(&copy, &GIF).expect_err("different content");
    assert!(matches!(&refused, StoreError::ContentMismatch(name) if name == "a.png"));
    assert_eq!(refused.message(), "目标目录存在同名但内容不同的文件：a.png");
}

#[test]
fn a_completed_move_reports_what_was_left_behind() {
    let mut store = library_with_two();
    let before = store.records().to_vec();
    let result = store.complete_migration("/new".to_string(), Vec::new());
    assert_eq!(store.root_directory(), "/new");
    assert!(store.records().is_empty());
    assert_eq!(result.previous_root, "/old");
    assert_eq!(result.migrated_count, 2);
    assert_eq!(result.previous_records[1].id, before[1].id);
    let plan = store.cleanup_previous_library(&result, false).expect("cleanup");
    assert_eq!(plan.root, "/old");
    assert_eq!(plan.index, "/old/library.json");
    assert_eq!(plan.sticker_directory, "/old/stickers");
    assert_eq!(plan.files, before.iter().map(|r| format!("/old/stickers/{}", r.filename)).collect::<Vec<_>>());
    store.restore_root("/old".to_string(), before.clone());
    assert_eq!(store.root_directory(), "/old");
    assert_eq!(store.records().len(), 2);
    assert!(store.cleanup_previous_library(&result, false).is_none());
}

#[test]
fn exports_list_the_stickers_newest_first() {
    let empty = StickerStore::new("/lib".to_string());
    let refused = empty.export_entries(false).expect_err("nothing to export");
    assert_eq!(refused.message(), "当前没有可导出的表情");
    let store = library_with_two();
    let plan = store.export_entries(false).expect("entries");
    let entries = &plan.entries;
    let listed = store.list();
    assert_eq!(plan.index_name, "library.json");
    assert_eq!(plan.index_version, 1);
    assert_eq!(
        plan.index_records.iter().map(|r| r.id.clone()).collect::<Vec<_>>(),
        listed.iter().map(|r| r.id.clone()).collect::<Vec<_>>()
    );
    assert_eq!(entries.len(), 2);
    assert_eq!(listed[0].imported_at, 2);
    assert_eq!(entries[0].archive_name, format!("stickers/{}", listed[0].filename));
    assert_eq!(entries[0].source, format!("/old/stickers/{}", listed[0].filename));
}

#[test]
fn records_without_files_are_pruned() {
    let mut store = library_with_two();
    let kept_id = store.records()[1].id.clone();
    assert!(!store.prune_missing_files(&[true, true]));
    assert_eq!(store.records().len(), 2);
    assert!(store.prune_missing_files(&[false, true]));
    assert_eq!(store.records().len(), 1);
    assert_eq!(store.records()[0].id, kept_id);
}

#[test]
fn index_records_replace_the_library_content() {
    let source = library_with_two();
    let mut store = StickerStore::new("/lib".to_string());
    store.initialize(source.records().to_vec());
    assert_eq!(store.records().len(), 2);
    store.restore_records(Vec::new());
    assert!(store.records().is_empty());
    assert_eq!(store.root_directory(), "/lib");
}

#[test]
fn an_offered_image_is_planned_before_it_is_stored() {
    let mut store = StickerStore::new("/lib".to_string());
    assert!(matches!(store.prepare_add(b"", None, None, None, 1), AddPlan::Rejected));
    let fresh = match store.prepare_add(&GIF, Some("image/png"), Some("m".to_string()), Some("u".to_string()), 7) {
        AddPlan::New(record) => record,
        other => panic!("unexpected {:?}", other),
    };
    assert_eq!(fresh.mime_type, "image/gif");
    assert_eq!(fresh.filename, format!("{}.gif", fresh.sha256));
    assert_eq!(fresh.id, fresh.sha256[..24]);
    assert_eq!(fresh.wechat_md5.as_deref(), Some("m"));
    assert_eq!(fresh.source_url.as_deref(), Some("u"));
    assert_eq!(fresh.bytes, GIF.len() as u64);
    store.insert_new(fresh.clone());
    assert!(matches!(store.prepare_add(&GIF, None, None, None, 8), AddPlan::Existing(r) if r.id == fresh.id));
}

#[test]
fn refusals_have_messages() {
    assert_eq!(StoreError::SendingInProgress.message(), "有表情正在发送到飞书，请等待发送完成后再删除");
    assert_eq!(StoreError::NotAbsolute.message(), "新的表情库目录必须是绝对路径");
    assert_eq!(
        StoreError::OverlappingLibraries.message(),
        "新旧表情库目录不能互相包含，请选择另一个独立文件夹"
    );
}
