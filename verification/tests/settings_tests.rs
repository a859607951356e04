use sticker_relay::library::{deleted_md5s, export_result, library_change_result, library_location};
use sticker_relay::settings::{AppSettings, PersistedSettings, SettingsError};
use sticker_relay::store::StickerStore;

#[test]
fn the_stored_library_directory_is_used_when_absolute() {
    let stored = AppSettings::stored_root(
        Some(PersistedSettings { version: 1, sticker_library_root: Some("/data/lib".to_string()) }),
        Some(PersistedSettings { version: 1, sticker_library_root: Some("/legacy".to_string()) }),
    );
    assert_eq!(stored.as_deref(), Some("/data/lib"));
    let settings = AppSettings::initialize("/cfg/settings.json".to_string(), "/default".to_string(), stored, true);
    assert_eq!(settings.sticker_library_root(), "/data/lib");
    let relative = AppSettings::initialize("/cfg/settings.json".to_string(), "/default".to_string(), Some("lib".to_string()), false);
    assert_eq!(relative.sticker_library_root(), "/default");
    let legacy = AppSettings::stored_root(None, Some(PersistedSettings { version: 1, sticker_library_root: Some("/legacy".to_string()) }));
    assert_eq!(legacy.as_deref(), Some("/legacy"));
}

#[test]
fn a_relative_library_directory_is_refused() {
    let mut settings = AppSettings::initialize("/cfg".to_string(), "/default".to_string(), None, false);
    assert_eq!(settings.set_sticker_library_root("lib".to_string(), false), Err(SettingsError::NotAbsolute));
    assert_eq!(settings.sticker_library_root(), "/default");
    let previous = settings.set_sticker_library_root("/new".to_string(), true).expect("absolute");
    assert_eq!(previous, "/default");
    assert_eq!(settings.to_persisted().sticker_library_root.as_deref(), Some("/new"));
    settings.restore_sticker_library_root(previous);
    assert_eq!(settings.sticker_library_root(), "/default");
    assert_eq!(SettingsError::NotAbsolute.message(), "表情库目录必须是绝对路径");
}

#[test]
fn reports_where_the_library_is() {
    let settings = AppSettings::initialize("/cfg".to_string(), "/default".to_string(), None, false);
    let store = StickerStore::new("/default/".to_string());
    let location = library_location(&store, &settings, false);
    assert_eq!(location.path, "/default/");
    assert!(location.is_default);
    let change = library_change_result(&StickerStore::new("/other".to_string()), &settings, false, 3);
    assert!(!change.is_default && !change.canceled);
    assert_eq!(change.migrated_count, 3);
    let export = export_result("/out.zip".to_string(), 2);
    assert_eq!(export.count, Some(2));
}

#[test]
fn deleted_stickers_give_back_their_md5s() {
    let mut store = StickerStore::new("/lib".to_string());
    let a = store.add_buffer(b"GIF89a1", None, Some("m1".to_string()), None, 1).record.expect("a");
    let b = store.add_buffer(b"GIF89a2", None, None, None, 2).record.expect("b");
    assert_eq!(deleted_md5s(&[a, b]), vec!["m1".to_string()]);
}
