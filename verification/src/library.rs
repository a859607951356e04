use vstd::prelude::*;
use crate::models::{ExportResult, StickerLibraryChangeResult, StickerLibraryLocation, StickerRecord};
use crate::settings::AppSettings;
use crate::store::{same_path, same_path_spec, StickerStore};

verus! {

/// Where the sticker library is, and whether that is the default directory.
pub fn library_location(store: &StickerStore, settings: &AppSettings, windows: bool) -> (r: StickerLibraryLocation)
    ensures
        r.path@ == store.root(),
        r.is_default == same_path_spec(store.root(), settings.default_root(), windows),
{
    let root = store.root_directory();
    StickerLibraryLocation {
        path: crate::text::owned(root),
        is_default: same_path(root, settings.default_sticker_library_root(), windows),
    }
}

/// The outcome of choosing a library directory, once the library is there.
pub fn library_change_result(
    store: &StickerStore,
    settings: &AppSettings,
    windows: bool,
    migrated_count: usize,
) -> (r: StickerLibraryChangeResult)
    ensures
        !r.canceled,
        r.path@ == store.root(),
        r.is_default == same_path_spec(store.root(), settings.default_root(), windows),
        r.migrated_count == migrated_count,
{
    let location = library_location(store, settings, windows);
    StickerLibraryChangeResult { canceled: false, path: location.path, is_default: location.is_default, migrated_count }
}

/// The WeChat MD5 digests of `records`, in order, for those that have one.
pub open spec fn md5s_of(records: Seq<StickerRecord>) -> Seq<Seq<char>>
    decreases records.len(),
{
    if records.len() == 0 {
        Seq::empty()
    } else {
        let p = md5s_of(records.drop_last());
        match records.last().wechat_md5 {
            Some(m) => p.push(m@),
            None => p,
        }
    }
}

/// The WeChat MD5 digests of deleted stickers, which the collector forgets
/// so that sending them again imports them again.
pub fn deleted_md5s(removed: &[StickerRecord]) -> (r: Vec<String>)
    ensures
        r@.map_values(|s: String| s@) == md5s_of(removed@),
{
    let mut out: Vec<String> = Vec::new();
    let mut i: usize = 0;
    assert(out@.map_values(|s: String| s@) =~= md5s_of(removed@.take(0)));
    while i < removed.len()
        invariant
            i <= removed.len(),
            out@.map_values(|s: String| s@) == md5s_of(removed@.take(i as int)),
        decreases removed.len() - i,
    {
        assert(removed@.take(i + 1).drop_last() == removed@.take(i as int));
        assert(removed@.take(i + 1).last() == removed@[i as int]);
        if let Some(m) = &removed[i].wechat_md5 {
            let ghost before = out@.map_values(|s: String| s@);
            out.push(m.clone());
            assert(out@.map_values(|s: String| s@) =~= before.push(m@));
        }
        i = i + 1;
    }
    assert(removed@.take(removed.len() as int) == removed@);
    out
}

/// The outcome of exporting `count` stickers to `destination`.
pub fn export_result(destination: String, count: usize) -> (r: ExportResult)
    ensures
        !r.canceled,
        r.path == Some(destination),
        r.count == Some(count),
{
    ExportResult { canceled: false, path: Some(destination), count: Some(count) }
}

} // verus!
