use vstd::prelude::*;
use crate::digest::{base64_encode, base64_standard, sha256_hex, sha256_hex_of};
use crate::models::{clone_opt_string, FeishuSendState, StickerRecord};
use crate::text::{
    chars_of, concat, prefix_chars, starts_with, str_eq, str_starts_with, string_from,
    take_chars, to_lowercase, trim_end_char, trim_end_matches_char, unicode_lowercase,
};

verus! {

broadcast use vstd::seq_lib::group_to_multiset_ensures;

/// Largest sticker the library accepts, in bytes.
pub const MAX_STICKER_BYTES: usize = 10485760;

/// How many characters of a failure message are kept.
pub const MAX_ERROR_CHARS: usize = 500;

// ------------------------------------------------------------------
// Paths
// ------------------------------------------------------------------

/// Whether `c` ends a directory name: `/`, and on Windows `\` too.
pub open spec fn is_path_separator(c: char, windows: bool) -> bool {
    c == '/' || (windows && c == '\\')
}

/// `name` placed inside the directory `base`, as `Path::join` does for a
/// relative `name`: a separator (`\` on Windows, `/` elsewhere) goes between
/// them unless `base` is empty or already ends with one.
pub open spec fn joined(base: Seq<char>, name: Seq<char>, windows: bool) -> Seq<char> {
    if base.len() == 0 || is_path_separator(base.last(), windows) {
        base + name
    } else {
        base.push(if windows { '\\' } else { '/' }) + name
    }
}

/// The path of `name` inside the directory `base`.
pub fn join_path(base: &str, name: &str, windows: bool) -> (r: String)
    ensures
        r@ == joined(base@, name@, windows),
{
    let b = chars_of(base);
    if b.len() == 0 || b[b.len() - 1] == '/' || (windows && b[b.len() - 1] == '\\') {
        concat(base, name)
    } else {
        let mut with_sep = string_from(b.as_slice());
        with_sep.push(if windows { '\\' } else { '/' });
        concat(with_sep.as_str(), name)
    }
}

/// `s` with every `from` character replaced by `to`.
pub open spec fn replace_char(s: Seq<char>, from: char, to: char) -> Seq<char> {
    s.map_values(|c: char| if c == from { to } else { c })
}

/// The form in which two paths are compared: on Windows separators are
/// unified to `\`, trailing separators dropped and the text lower-cased;
/// elsewhere only trailing `/` are dropped.
pub open spec fn normalized_path(path: Seq<char>, windows: bool) -> Seq<char> {
    if windows {
        unicode_lowercase(trim_end_char(replace_char(path, '/', '\\'), '\\'))
    } else {
        trim_end_char(path, '/')
    }
}

/// The path in its compared form.
pub fn normalized_for_compare(path: &str, windows: bool) -> (r: String)
    ensures
        r@ == normalized_path(path@, windows),
{
    let cs = chars_of(path);
    if windows {
        let mut unified: Vec<char> = Vec::new();
        let mut i: usize = 0;
        while i < cs.len()
            invariant
                i <= cs.len(),
                cs@ == path@,
                unified@ == replace_char(path@.take(i as int), '/', '\\'),
            decreases cs.len() - i,
        {
            unified.push(if cs[i] == '/' { '\\' } else { cs[i] });
            i = i + 1;
            assert(replace_char(path@.take(i as int), '/', '\\') =~= replace_char(
                path@.take(i - 1),
                '/',
                '\\',
            ).push(if path@[i - 1] == '/' { '\\' } else { path@[i - 1] }));
        }
        assert(path@.take(cs.len() as int) == path@);
        let trimmed = trim_end_matches_char(unified.as_slice(), '\\');
        let text = string_from(trimmed.as_slice());
        to_lowercase(text.as_str())
    } else {
        let trimmed = trim_end_matches_char(cs.as_slice(), '/');
        string_from(trimmed.as_slice())
    }
}

/// Two paths name the same place once normalized.
pub open spec fn same_path_spec(first: Seq<char>, second: Seq<char>, windows: bool) -> bool {
    normalized_path(first, windows) == normalized_path(second, windows)
}

/// Whether two paths name the same place.
pub fn same_path(first: &str, second: &str, windows: bool) -> (r: bool)
    ensures
        r == same_path_spec(first@, second@, windows),
{
    let a = normalized_for_compare(first, windows);
    let b = normalized_for_compare(second, windows);
    str_eq(a.as_str(), b.as_str())
}

/// The path separator used when comparing paths.
pub open spec fn separator(windows: bool) -> char {
    if windows { '\\' } else { '/' }
}

/// One path lies strictly inside the other.
pub open spec fn paths_overlap_spec(first: Seq<char>, second: Seq<char>, windows: bool) -> bool {
    let a = normalized_path(first, windows);
    let b = normalized_path(second, windows);
    starts_with(a, b.push(separator(windows))) || starts_with(b, a.push(separator(windows)))
}

/// Whether one of the two paths lies inside the other.
pub fn paths_overlap(first: &str, second: &str, windows: bool) -> (r: bool)
    ensures
        r == paths_overlap_spec(first@, second@, windows),
{
    let a = normalized_for_compare(first, windows);
    let b = normalized_for_compare(second, windows);
    let sep = if windows { '\\' } else { '/' };
    let mut b_sep = b.clone();
    b_sep.push(sep);
    let mut a_sep = a.clone();
    a_sep.push(sep);
    str_starts_with(a.as_str(), b_sep.as_str()) || str_starts_with(b.as_str(), a_sep.as_str())
}

// ------------------------------------------------------------------
// Image detection
// ------------------------------------------------------------------

/// The eight bytes that open every PNG file.
pub open spec fn png_signature() -> Seq<u8> {
    seq![0x89u8, 0x50u8, 0x4eu8, 0x47u8, 0x0du8, 0x0au8, 0x1au8, 0x0au8]
}

/// `p` is a prefix of the bytes `b`.
pub open spec fn bytes_start_with(b: Seq<u8>, p: Seq<u8>) -> bool {
    p.len() <= b.len() && b.take(p.len() as int) == p
}

/// The image type that the first bytes of `b` announce, if any.
pub open spec fn sniffed_mime(b: Seq<u8>) -> Option<Seq<char>> {
    if bytes_start_with(b, png_signature()) {
        Some("image/png"@)
    } else if bytes_start_with(b, seq![0x47u8, 0x49u8, 0x46u8, 0x38u8, 0x37u8, 0x61u8])
        || bytes_start_with(b, seq![0x47u8, 0x49u8, 0x46u8, 0x38u8, 0x39u8, 0x61u8]) {
        Some("image/gif"@)
    } else if bytes_start_with(b, seq![0xffu8, 0xd8u8, 0xffu8]) {
        Some("image/jpeg"@)
    } else if b.len() >= 12 && b.subrange(0, 4) == seq![0x52u8, 0x49u8, 0x46u8, 0x46u8]
        && b.subrange(8, 12) == seq![0x57u8, 0x45u8, 0x42u8, 0x50u8] {
        Some("image/webp"@)
    } else {
        None
    }
}

/// Whether `b` begins with the bytes of `p`.
fn bytes_prefix(b: &[u8], p: &[u8]) -> (r: bool)
    ensures
        r == bytes_start_with(b@, p@),
{
    if p.len() > b.len() {
        return false;
    }
    let mut i: usize = 0;
    while i < p.len()
        invariant
            p.len() <= b.len(),
            i <= p.len(),
            forall|k: int| 0 <= k < i ==> b@[k] == p@[k],
        decreases p.len() - i,
    {
        if b[i] != p[i] {
            assert(b@.take(p.len() as int)[i as int] != p@[i as int]);
            return false;
        }
        i = i + 1;
    }
    assert(b@.take(p.len() as int) =~= p@);
    true
}

/// The image type announced by the magic bytes at the start of `buffer`:
/// PNG, GIF (87a or 89a), JPEG or WebP.
pub fn sniff_image_mime(buffer: &[u8]) -> (r: Option<&'static str>)
    ensures
        match r {
            Some(m) => sniffed_mime(buffer@) == Some(m@),
            None => sniffed_mime(buffer@) is None,
        },
{
    let png: [u8; 8] = [0x89, 0x50, 0x4e, 0x47, 0x0d, 0x0a, 0x1a, 0x0a];
    let gif87: [u8; 6] = [0x47, 0x49, 0x46, 0x38, 0x37, 0x61];
    let gif89: [u8; 6] = [0x47, 0x49, 0x46, 0x38, 0x39, 0x61];
    let jpeg: [u8; 3] = [0xff, 0xd8, 0xff];
    assert(png@ == png_signature());
    assert(gif87@ == seq![0x47u8, 0x49u8, 0x46u8, 0x38u8, 0x37u8, 0x61u8]);
    assert(gif89@ == seq![0x47u8, 0x49u8, 0x46u8, 0x38u8, 0x39u8, 0x61u8]);
    assert(jpeg@ == seq![0xffu8, 0xd8u8, 0xffu8]);
    if bytes_prefix(buffer, png.as_slice()) {
        return Some("image/png");
    }
    if bytes_prefix(buffer, gif87.as_slice()) || bytes_prefix(buffer, gif89.as_slice()) {
        return Some("image/gif");
    }
    if bytes_prefix(buffer, jpeg.as_slice()) {
        return Some("image/jpeg");
    }
    if buffer.len() >= 12 && buffer[0] == 0x52 && buffer[1] == 0x49 && buffer[2] == 0x46
        && buffer[3] == 0x46 && buffer[8] == 0x57 && buffer[9] == 0x45 && buffer[10] == 0x42
        && buffer[11] == 0x50 {
        assert(buffer@.subrange(0, 4) =~= seq![0x52u8, 0x49u8, 0x46u8, 0x46u8]);
        assert(buffer@.subrange(8, 12) =~= seq![0x57u8, 0x45u8, 0x42u8, 0x50u8]);
        return Some("image/webp");
    }
    proof {
        if buffer.len() >= 12 && buffer@.subrange(0, 4) == seq![0x52u8, 0x49u8, 0x46u8, 0x46u8] {
            assert(buffer@.subrange(0, 4)[0] == buffer@[0]);
            assert(buffer@.subrange(0, 4)[1] == buffer@[1]);
            assert(buffer@.subrange(0, 4)[2] == buffer@[2]);
            assert(buffer@.subrange(0, 4)[3] == buffer@[3]);
            if buffer@.subrange(8, 12) == seq![0x57u8, 0x45u8, 0x42u8, 0x50u8] {
                assert(buffer@.subrange(8, 12)[0] == buffer@[8]);
                assert(buffer@.subrange(8, 12)[1] == buffer@[9]);
                assert(buffer@.subrange(8, 12)[2] == buffer@[10]);
                assert(buffer@.subrange(8, 12)[3] == buffer@[11]);
            }
        }
    }
    None
}

/// The file extension under which a sticker of the given type is stored.
pub open spec fn extension_spec(mime: Seq<char>) -> Seq<char> {
    if mime == "image/gif"@ {
        ".gif"@
    } else if mime == "image/png"@ {
        ".png"@
    } else if mime == "image/jpeg"@ {
        ".jpg"@
    } else if mime == "image/webp"@ {
        ".webp"@
    } else {
        ".bin"@
    }
}

/// The file extension for an image type (`.bin` when unknown).
pub fn extension_for_mime(mime_type: &str) -> (r: &'static str)
    ensures
        r@ == extension_spec(mime_type@),
{
    if str_eq(mime_type, "image/gif") {
        ".gif"
    } else if str_eq(mime_type, "image/png") {
        ".png"
    } else if str_eq(mime_type, "image/jpeg") {
        ".jpg"
    } else if str_eq(mime_type, "image/webp") {
        ".webp"
    } else {
        ".bin"
    }
}

// ------------------------------------------------------------------
// Record lookups
// ------------------------------------------------------------------

/// The position of the first record with the given id (`s.len()` when none has it).
pub open spec fn id_position(s: Seq<StickerRecord>, id: Seq<char>) -> nat
    decreases s.len(),
{
    if s.len() == 0 {
        0
    } else if s[0].id@ == id {
        0
    } else {
        1 + id_position(s.drop_first(), id)
    }
}

/// The position of the first record with the given SHA-256 (`s.len()` when none has it).
pub open spec fn sha_position(s: Seq<StickerRecord>, sha: Seq<char>) -> nat
    decreases s.len(),
{
    if s.len() == 0 {
        0
    } else if s[0].sha256@ == sha {
        0
    } else {
        1 + sha_position(s.drop_first(), sha)
    }
}

/// `id_position` is the first match, or the length when nothing matches.
pub proof fn lemma_id_position(s: Seq<StickerRecord>, id: Seq<char>)
    ensures
        id_position(s, id) <= s.len(),
        id_position(s, id) < s.len() ==> s[id_position(s, id) as int].id@ == id,
        forall|j: int| 0 <= j < id_position(s, id) ==> s[j].id@ != id,
    decreases s.len(),
{
    if s.len() > 0 && s[0].id@ != id {
        lemma_id_position(s.drop_first(), id);
        assert forall|j: int| 0 <= j < id_position(s, id) implies s[j].id@ != id by {
            if j > 0 {
                assert(s[j] == s.drop_first()[j - 1]);
            }
        }
    }
}

/// `sha_position` is the first match, or the length when nothing matches.
pub proof fn lemma_sha_position(s: Seq<StickerRecord>, sha: Seq<char>)
    ensures
        sha_position(s, sha) <= s.len(),
        sha_position(s, sha) < s.len() ==> s[sha_position(s, sha) as int].sha256@ == sha,
        forall|j: int| 0 <= j < sha_position(s, sha) ==> s[j].sha256@ != sha,
    decreases s.len(),
{
    if s.len() > 0 && s[0].sha256@ != sha {
        lemma_sha_position(s.drop_first(), sha);
        assert forall|j: int| 0 <= j < sha_position(s, sha) implies s[j].sha256@ != sha by {
            if j > 0 {
                assert(s[j] == s.drop_first()[j - 1]);
            }
        }
    }
}

/// A first match found by scanning is the one `id_position` names.
proof fn lemma_id_position_unique(s: Seq<StickerRecord>, id: Seq<char>, i: int)
    requires
        0 <= i <= s.len(),
        forall|j: int| 0 <= j < i ==> s[j].id@ != id,
        i < s.len() ==> s[i].id@ == id,
    ensures
        id_position(s, id) == i,
{
    lemma_id_position(s, id);
}

/// A first match found by scanning is the one `sha_position` names.
proof fn lemma_sha_position_unique(s: Seq<StickerRecord>, sha: Seq<char>, i: int)
    requires
        0 <= i <= s.len(),
        forall|j: int| 0 <= j < i ==> s[j].sha256@ != sha,
        i < s.len() ==> s[i].sha256@ == sha,
    ensures
        sha_position(s, sha) == i,
{
    lemma_sha_position(s, sha);
}

/// The position of the first record in `records` whose id is `id`.
fn find_id(records: &Vec<StickerRecord>, id: &str) -> (r: usize)
    ensures
        r == id_position(records@, id@),
{
    let mut i: usize = 0;
    while i < records.len()
        invariant
            i <= records.len(),
            forall|j: int| 0 <= j < i ==> records@[j].id@ != id@,
        decreases records.len() - i,
    {
        if str_eq(records[i].id.as_str(), id) {
            proof {
                lemma_id_position_unique(records@, id@, i as int);
            }
            return i;
        }
        i = i + 1;
    }
    proof {
        lemma_id_position_unique(records@, id@, i as int);
    }
    i
}

/// The position of the first record in `records` whose SHA-256 is `sha`.
fn find_sha(records: &Vec<StickerRecord>, sha: &str) -> (r: usize)
    ensures
        r == sha_position(records@, sha@),
{
    let mut i: usize = 0;
    while i < records.len()
        invariant
            i <= records.len(),
            forall|j: int| 0 <= j < i ==> records@[j].sha256@ != sha@,
        decreases records.len() - i,
    {
        if str_eq(records[i].sha256.as_str(), sha) {
            proof {
                lemma_sha_position_unique(records@, sha@, i as int);
            }
            return i;
        }
        i = i + 1;
    }
    proof {
        lemma_sha_position_unique(records@, sha@, i as int);
    }
    i
}

// ------------------------------------------------------------------
// Newest-first ordering
// ------------------------------------------------------------------

/// Where a record imported at `key` goes in a newest-first sequence:
/// after every record at least as new.
pub open spec fn insert_position(s: Seq<StickerRecord>, key: u64) -> nat
    decreases s.len(),
{
    if s.len() == 0 {
        0
    } else if s[0].imported_at < key {
        0
    } else {
        1 + insert_position(s.drop_first(), key)
    }
}

/// `s` ordered newest first; records imported at the same moment keep their order.
pub open spec fn newest_first(s: Seq<StickerRecord>) -> Seq<StickerRecord>
    decreases s.len(),
{
    if s.len() == 0 {
        s
    } else {
        let sorted = newest_first(s.drop_last());
        sorted.insert(insert_position(sorted, s.last().imported_at) as int, s.last())
    }
}

/// No record is newer than one before it.
pub open spec fn is_newest_first(s: Seq<StickerRecord>) -> bool {
    forall|i: int, j: int| 0 <= i < j < s.len() ==> s[j].imported_at <= s[i].imported_at
}

proof fn lemma_insert_position(s: Seq<StickerRecord>, key: u64)
    ensures
        insert_position(s, key) <= s.len(),
        forall|j: int| 0 <= j < insert_position(s, key) ==> s[j].imported_at >= key,
        insert_position(s, key) < s.len() ==> s[insert_position(s, key) as int].imported_at < key,
    decreases s.len(),
{
    if s.len() > 0 && s[0].imported_at >= key {
        lemma_insert_position(s.drop_first(), key);
        assert forall|j: int| 0 <= j < insert_position(s, key) implies s[j].imported_at >= key by {
            if j > 0 {
                assert(s[j] == s.drop_first()[j - 1]);
            }
        }
    }
}

proof fn lemma_insert_position_unique(s: Seq<StickerRecord>, key: u64, p: int)
    requires
        0 <= p <= s.len(),
        forall|j: int| 0 <= j < p ==> s[j].imported_at >= key,
        p < s.len() ==> s[p].imported_at < key,
    ensures
        insert_position(s, key) == p,
{
    lemma_insert_position(s, key);
}

/// Newest-first ordering keeps every record and orders them by import time.
pub proof fn lemma_newest_first(s: Seq<StickerRecord>)
    ensures
        newest_first(s).to_multiset() == s.to_multiset(),
        newest_first(s).len() == s.len(),
        is_newest_first(newest_first(s)),
    decreases s.len(),
{
    if s.len() > 0 {
        let sorted = newest_first(s.drop_last());
        lemma_newest_first(s.drop_last());
        let x = s.last();
        let p = insert_position(sorted, x.imported_at);
        lemma_insert_position(sorted, x.imported_at);
        let r = sorted.insert(p as int, x);
        assert(s == s.drop_last().push(x));
        assert(r.to_multiset() == sorted.to_multiset().insert(x));
        assert(s.to_multiset() == s.drop_last().to_multiset().insert(x));
        assert forall|i: int, j: int| 0 <= i < j < r.len() implies r[j].imported_at <= r[i].imported_at by {
            if j < p {
            } else if j == p {
                assert(r[j] == x);
                if i < p {
                    assert(r[i] == sorted[i]);
                }
            } else {
                assert(r[j] == sorted[j - 1]);
                if i < p {
                    assert(r[i] == sorted[i]);
                } else if i == p {
                    assert(r[i] == x);
                    if p < sorted.len() {
                        assert(sorted[j - 1].imported_at <= sorted[p as int].imported_at);
                    }
                } else {
                    assert(r[i] == sorted[i - 1]);
                }
            }
        }
    }
}

// ------------------------------------------------------------------
// Filtering helpers
// ------------------------------------------------------------------

/// `ids` holds `id`.
pub open spec fn id_listed(ids: Seq<String>, id: Seq<char>) -> bool {
    exists|k: int| 0 <= k < ids.len() && ids[k]@ == id
}

/// The records of `s` whose id is listed in `ids`, in order.
pub open spec fn listed_records(s: Seq<StickerRecord>, ids: Seq<String>) -> Seq<StickerRecord>
    decreases s.len(),
{
    if s.len() == 0 {
        s
    } else if id_listed(ids, s.last().id@) {
        listed_records(s.drop_last(), ids).push(s.last())
    } else {
        listed_records(s.drop_last(), ids)
    }
}

/// The records of `s` whose id is not listed in `ids`, in order.
pub open spec fn unlisted_records(s: Seq<StickerRecord>, ids: Seq<String>) -> Seq<StickerRecord>
    decreases s.len(),
{
    if s.len() == 0 {
        s
    } else if id_listed(ids, s.last().id@) {
        unlisted_records(s.drop_last(), ids)
    } else {
        unlisted_records(s.drop_last(), ids).push(s.last())
    }
}

/// The records of `s` at the positions where `keep` is true, in order.
pub open spec fn kept_records(s: Seq<StickerRecord>, keep: Seq<bool>) -> Seq<StickerRecord>
    decreases s.len(),
{
    if s.len() == 0 {
        s
    } else if keep[s.len() - 1] {
        kept_records(s.drop_last(), keep).push(s.last())
    } else {
        kept_records(s.drop_last(), keep)
    }
}

/// One of the records is being sent to Feishu.
pub open spec fn any_sending(s: Seq<StickerRecord>) -> bool {
    exists|k: int| 0 <= k < s.len() && s[k].feishu_state == FeishuSendState::Sending
}

/// Whether `id` is one of `ids`.
fn id_in(ids: &[String], id: &str) -> (r: bool)
    ensures
        r == id_listed(ids@, id@),
{
    let mut k: usize = 0;
    while k < ids.len()
        invariant
            k <= ids.len(),
            forall|j: int| 0 <= j < k ==> ids@[j]@ != id@,
        decreases ids.len() - k,
    {
        if str_eq(ids[k].as_str(), id) {
            return true;
        }
        k = k + 1;
    }
    false
}

// ------------------------------------------------------------------
// Errors
// ------------------------------------------------------------------

/// Why a library operation was refused.
#[derive(Debug, Clone)]
pub enum StoreError {
    /// A sticker chosen for deletion is being sent to Feishu.
    SendingInProgress,
    /// A new library directory was not given as an absolute path.
    NotAbsolute,
    /// The old and the new library directory contain one another.
    OverlappingLibraries,
    /// The new library already holds a different file under this name.
    ContentMismatch(String),
    /// The library is empty, so there is nothing to export.
    NothingToExport,
}

/// The message shown for a refusal.
pub open spec fn store_error_text(e: StoreError) -> Seq<char> {
    match e {
        StoreError::SendingInProgress => "有表情正在发送到飞书，请等待发送完成后再删除"@,
        StoreError::NotAbsolute => "新的表情库目录必须是绝对路径"@,
        StoreError::OverlappingLibraries => "新旧表情库目录不能互相包含，请选择另一个独立文件夹"@,
        StoreError::ContentMismatch(filename) => "目标目录存在同名但内容不同的文件："@ + filename@,
        StoreError::NothingToExport => "当前没有可导出的表情"@,
    }
}

impl StoreError {
    /// The message shown to the user.
    pub fn message(&self) -> (r: String)
        ensures
            r@ == store_error_text(*self),
    {
        match self {
            StoreError::SendingInProgress => crate::text::owned("有表情正在发送到飞书，请等待发送完成后再删除"),
            StoreError::NotAbsolute => crate::text::owned("新的表情库目录必须是绝对路径"),
            StoreError::OverlappingLibraries => crate::text::owned("新旧表情库目录不能互相包含，请选择另一个独立文件夹"),
            StoreError::ContentMismatch(filename) => concat("目标目录存在同名但内容不同的文件：", filename.as_str()),
            StoreError::NothingToExport => crate::text::owned("当前没有可导出的表情"),
        }
    }
}

// ------------------------------------------------------------------
// The store
// ------------------------------------------------------------------

/// The outcome of offering a downloaded image to the library.
#[derive(Debug)]
pub struct AddResult {
    pub added: bool,
    pub record: Option<StickerRecord>,
}

/// The sticker library: a root directory holding `library.json` and a
/// `stickers` directory, and the records the index file lists (newest added first).
pub struct StickerStore {
    root_directory: String,
    records: Vec<StickerRecord>,
}

/// The record `r` after a change of its Feishu state: the message id is
/// replaced when one is given or the state is `Sent`, the error is replaced.
pub open spec fn patched(
    r: StickerRecord,
    state: FeishuSendState,
    message_id: Option<String>,
    error_message: Option<String>,
) -> StickerRecord {
    StickerRecord {
        feishu_state: state,
        feishu_message_id: if message_id is Some || state == FeishuSendState::Sent {
            message_id
        } else {
            r.feishu_message_id
        },
        error_message: error_message,
        ..r
    }
}

/// The view of an optional text.
pub open spec fn opt_str_view(o: Option<&str>) -> Option<Seq<char>> {
    match o {
        Some(t) => Some(t@),
        None => None,
    }
}

/// The image type under which a buffer is stored: the sniffed type, else the
/// declared type when it is an `image/` type.
pub open spec fn accepted_mime(buffer: Seq<u8>, declared: Option<Seq<char>>) -> Option<Seq<char>> {
    match sniffed_mime(buffer) {
        Some(m) => Some(m),
        None => if declared is Some && starts_with(declared->0, "image/"@) {
            declared
        } else {
            None
        },
    }
}

/// `r` is the fresh record for a buffer: keyed by its SHA-256 (the id is the
/// first 24 hex digits, the file name the digest and the type's extension),
/// pending for Feishu.
pub open spec fn is_new_record(
    r: StickerRecord,
    buffer: Seq<u8>,
    mime: Seq<char>,
    wechat_md5: Option<String>,
    source_url: Option<String>,
    imported_at: u64,
) -> bool {
    let sha = sha256_hex(buffer);
    &&& r.id@ == take_chars(sha, 24)
    &&& r.sha256@ == sha
    &&& r.wechat_md5 == wechat_md5
    &&& r.filename@ == sha + extension_spec(mime)
    &&& r.mime_type@ == mime
    &&& r.bytes == buffer.len()
    &&& r.source_url == source_url
    &&& r.imported_at == imported_at
    &&& r.feishu_state == FeishuSendState::Pending
    &&& r.feishu_message_id is None
    &&& r.error_message is None
}

/// A buffer is refused outright: empty, too large, or not an image.
pub open spec fn rejected_buffer(buffer: Seq<u8>, declared: Option<Seq<char>>) -> bool {
    buffer.len() == 0 || buffer.len() > MAX_STICKER_BYTES || accepted_mime(buffer, declared) is None
}

/// What offering a buffer to the library amounts to.
#[derive(Debug)]
pub enum AddPlan {
    /// Not an acceptable image.
    Rejected,
    /// The library already holds an image with the same SHA-256.
    Existing(StickerRecord),
    /// A new sticker; its file must be written before the record is added.
    New(StickerRecord),
}

/// What the plan for a buffer is, given the library's records.
pub open spec fn add_plan_spec(
    plan: AddPlan,
    records: Seq<StickerRecord>,
    buffer: Seq<u8>,
    declared: Option<Seq<char>>,
    wechat_md5: Option<String>,
    source_url: Option<String>,
    imported_at: u64,
) -> bool {
    if rejected_buffer(buffer, declared) {
        plan is Rejected
    } else if sha_position(records, sha256_hex(buffer)) < records.len() {
        plan == AddPlan::Existing(records[sha_position(records, sha256_hex(buffer)) as int])
    } else {
        plan matches AddPlan::New(r) && is_new_record(
            r,
            buffer,
            accepted_mime(buffer, declared)->0,
            wechat_md5,
            source_url,
            imported_at,
        )
    }
}

/// The records keyed by SHA-256; a later record replaces an earlier one with the same digest.
pub open spec fn latest_by_sha(s: Seq<StickerRecord>) -> Map<Seq<char>, StickerRecord>
    decreases s.len(),
{
    if s.len() == 0 {
        Map::empty()
    } else {
        latest_by_sha(s.drop_last()).insert(s.last().sha256@, s.last())
    }
}

/// No two records share a SHA-256.
pub open spec fn unique_sha(s: Seq<StickerRecord>) -> bool {
    forall|i: int, j: int| 0 <= i < j < s.len() ==> s[i].sha256@ != s[j].sha256@
}

/// For records without repeated digests, each digest maps to its record.
pub proof fn lemma_latest_by_sha_unique(u: Seq<StickerRecord>)
    requires
        unique_sha(u),
    ensures
        forall|k: Seq<char>| latest_by_sha(u).dom().contains(k) <==> exists|i: int| 0 <= i < u.len() && u[i].sha256@ == k,
        forall|i: int| 0 <= i < u.len() ==> #[trigger] latest_by_sha(u)[u[i].sha256@] == u[i],
    decreases u.len(),
{
    if u.len() > 0 {
        let d = u.drop_last();
        let x = u.last();
        lemma_latest_by_sha_unique(d);
        assert(latest_by_sha(u) == latest_by_sha(d).insert(x.sha256@, x));
        assert forall|k: Seq<char>| latest_by_sha(u).dom().contains(k) <==> exists|i: int| 0 <= i < u.len() && u[i].sha256@ == k by {
            let in_d = latest_by_sha(d).dom().contains(k);
            if latest_by_sha(u).dom().contains(k) {
                if k == x.sha256@ {
                    assert(u[u.len() - 1].sha256@ == k);
                } else {
                    assert(in_d);
                    let i = choose|i: int| 0 <= i < d.len() && d[i].sha256@ == k;
                    assert(u[i] == d[i]);
                }
            }
            if exists|i: int| 0 <= i < u.len() && u[i].sha256@ == k {
                let i = choose|i: int| 0 <= i < u.len() && u[i].sha256@ == k;
                if i < u.len() - 1 {
                    assert(d[i] == u[i]);
                    assert(in_d);
                }
            }
        }
        assert forall|i: int| 0 <= i < u.len() implies #[trigger] latest_by_sha(u)[u[i].sha256@] == u[i] by {
            if i < u.len() - 1 {
                assert(d[i] == u[i]);
                assert(u[i].sha256@ != u[u.len() - 1].sha256@);
                assert(latest_by_sha(d)[d[i].sha256@] == d[i]);
            }
        }
    }
}

/// Replacing a record by one with the same digest replaces it in the digest map.
proof fn lemma_latest_update(u: Seq<StickerRecord>, p: int, x: StickerRecord)
    requires
        unique_sha(u),
        0 <= p < u.len(),
        u[p].sha256@ == x.sha256@,
    ensures
        unique_sha(u.update(p, x)),
        latest_by_sha(u.update(p, x)) == latest_by_sha(u).insert(x.sha256@, x),
{
    let v = u.update(p, x);
    assert forall|i: int, j: int| 0 <= i < j < v.len() implies v[i].sha256@ != v[j].sha256@ by {
        assert(v[i].sha256@ == u[i].sha256@);
        assert(v[j].sha256@ == u[j].sha256@);
    }
    lemma_latest_by_sha_unique(u);
    lemma_latest_by_sha_unique(v);
    let m1 = latest_by_sha(v);
    let m2 = latest_by_sha(u).insert(x.sha256@, x);
    assert forall|k: Seq<char>| m1.dom().contains(k) <==> m2.dom().contains(k) by {
        if m1.dom().contains(k) {
            let i = choose|i: int| 0 <= i < v.len() && v[i].sha256@ == k;
            assert(u[i].sha256@ == k);
        }
        if m2.dom().contains(k) && k != x.sha256@ {
            let i = choose|i: int| 0 <= i < u.len() && u[i].sha256@ == k;
            assert(v[i].sha256@ == k);
        }
        if k == x.sha256@ {
            assert(v[p].sha256@ == k);
        }
    }
    assert forall|k: Seq<char>| m1.dom().contains(k) implies m1[k] == m2[k] by {
        let i = choose|i: int| 0 <= i < v.len() && v[i].sha256@ == k;
        assert(m1[v[i].sha256@] == v[i]);
        if i == p {
            assert(v[i] == x);
        } else {
            assert(v[i] == u[i]);
            assert(latest_by_sha(u)[u[i].sha256@] == u[i]);
        }
    }
    assert(m1 =~= m2);
}

/// Appending a record with a new digest keeps digests unique.
proof fn lemma_push_new_sha(u: Seq<StickerRecord>, x: StickerRecord)
    requires
        unique_sha(u),
        forall|j: int| 0 <= j < u.len() ==> u[j].sha256@ != x.sha256@,
    ensures
        unique_sha(u.push(x)),
        latest_by_sha(u.push(x)) == latest_by_sha(u).insert(x.sha256@, x),
{
    let v = u.push(x);
    assert(v.drop_last() == u);
    assert forall|i: int, j: int| 0 <= i < j < v.len() implies v[i].sha256@ != v[j].sha256@ by {
        assert(v[i] == u[i]);
        if j < u.len() {
            assert(v[j] == u[j]);
        }
    }
}

/// Where each sticker file goes when the library moves.
#[derive(Debug)]
pub struct FileCopy {
    pub filename: String,
    pub sha256: String,
    pub source: String,
    pub target: String,
}

/// What the library held before it moved.
#[derive(Debug)]
pub struct StickerMigrationResult {
    pub previous_root: String,
    pub previous_records: Vec<StickerRecord>,
    pub migrated_count: usize,
}

/// What moving the library amounts to.
#[derive(Debug)]
pub enum MigrationPlan {
    /// The destination is the current library: nothing moves.
    Unchanged(StickerMigrationResult),
    /// Copy every sticker file into the destination, then merge the record lists.
    Copy {
        destination: String,
        sticker_directory: String,
        index_path: String,
        copies: Vec<FileCopy>,
    },
}

/// The files and directories of an abandoned library, to be removed (ignoring failures)
/// in this order: each sticker file, the index file, the sticker directory, the root.
#[derive(Debug)]
pub struct CleanupPlan {
    pub files: Vec<String>,
    pub index: String,
    pub sticker_directory: String,
    pub root: String,
}

/// One file of a ZIP export: its name inside the archive and its path on disk.
#[derive(Debug)]
pub struct ExportEntry {
    pub archive_name: String,
    pub source: String,
}

/// The version written into an index file.
pub const INDEX_VERSION: u8 = 1;

/// What a ZIP export holds: each sticker file (`entries`, skipped when the
/// file is missing), then the index file `index_name` at the archive's root,
/// holding `index_version` and the records `index_records`.
#[derive(Debug)]
pub struct ExportPlan {
    pub entries: Vec<ExportEntry>,
    pub index_name: String,
    pub index_version: u8,
    pub index_records: Vec<StickerRecord>,
}

/// `data:` URL of `bytes` labelled with `mime`.
pub open spec fn data_url_spec(mime: Seq<char>, bytes: Seq<u8>) -> Seq<char> {
    "data:"@ + mime + ";base64,"@ + base64_standard(bytes)
}

/// A `data:` URL carrying `bytes` in Base64, labelled with `mime_type`.
pub fn data_url(mime_type: &str, bytes: &[u8]) -> (r: String)
    ensures
        r@ == data_url_spec(mime_type@, bytes@),
{
    let head = concat("data:", mime_type);
    let head = concat(head.as_str(), ";base64,");
    let body = base64_encode(bytes);
    concat(head.as_str(), body.as_str())
}

/// The records of a library moved into a directory that already holds
/// `destination` records: keyed by digest, the moving records win.
pub fn merge_records(destination: Vec<StickerRecord>, previous: &[StickerRecord]) -> (r: Vec<StickerRecord>)
    ensures
        unique_sha(r@),
        latest_by_sha(r@) == latest_by_sha(destination@ + previous@),
{
    let mut all = destination;
    let mut k: usize = 0;
    let ghost dest = all@;
    while k < previous.len()
        invariant
            k <= previous.len(),
            all@ == dest + previous@.take(k as int),
        decreases previous.len() - k,
    {
        all.push(previous[k].clone());
        k = k + 1;
        assert(dest + previous@.take(k as int) == (dest + previous@.take(k - 1)).push(previous@[k - 1]));
    }
    assert(previous@.take(previous.len() as int) == previous@);
    let mut out: Vec<StickerRecord> = Vec::new();
    let mut i: usize = 0;
    while i < all.len()
        invariant
            i <= all.len(),
            unique_sha(out@),
            latest_by_sha(out@) == latest_by_sha(all@.take(i as int)),
        decreases all.len() - i,
    {
        let x = all[i].clone();
        assert(all@.take(i + 1).drop_last() == all@.take(i as int));
        let p = find_sha(&out, x.sha256.as_str());
        proof {
            lemma_sha_position(out@, x.sha256@);
        }
        if p < out.len() {
            proof {
                lemma_latest_update(out@, p as int, x);
            }
            out.set(p, x);
        } else {
            proof {
                lemma_push_new_sha(out@, x);
            }
            out.push(x);
        }
        i = i + 1;
    }
    assert(all@.take(all.len() as int) == all@);
    out
}

/// The digest map of `a + b` holds every digest of `b` with `b`'s latest record.
pub proof fn lemma_latest_concat(a: Seq<StickerRecord>, b: Seq<StickerRecord>)
    ensures
        forall|k: Seq<char>| #[trigger] latest_by_sha(a + b).dom().contains(k)
            <==> (latest_by_sha(a).dom().contains(k) || latest_by_sha(b).dom().contains(k)),
        forall|k: Seq<char>| #[trigger] latest_by_sha(b).dom().contains(k)
            ==> latest_by_sha(a + b)[k] == latest_by_sha(b)[k],
        forall|k: Seq<char>| latest_by_sha(a).dom().contains(k) && !latest_by_sha(b).dom().contains(k)
            ==> #[trigger] latest_by_sha(a + b)[k] == latest_by_sha(a)[k],
    decreases b.len(),
{
    if b.len() == 0 {
        assert(a + b == a);
        assert(latest_by_sha(b) == Map::<Seq<char>, StickerRecord>::empty());
    } else {
        let c = b.drop_last();
        lemma_latest_concat(a, c);
        assert((a + b).drop_last() == a + c);
        assert((a + b).last() == b.last());
        let x = b.last();
        assert(latest_by_sha(a + b) == latest_by_sha(a + c).insert(x.sha256@, x));
        assert(latest_by_sha(b) == latest_by_sha(c).insert(x.sha256@, x));
        assert forall|k: Seq<char>| #[trigger] latest_by_sha(a + b).dom().contains(k)
            <==> (latest_by_sha(a).dom().contains(k) || latest_by_sha(b).dom().contains(k)) by {
            assert(latest_by_sha(a + c).dom().contains(k)
                <==> (latest_by_sha(a).dom().contains(k) || latest_by_sha(c).dom().contains(k)));
        }
        assert forall|k: Seq<char>| #[trigger] latest_by_sha(b).dom().contains(k)
            implies latest_by_sha(a + b)[k] == latest_by_sha(b)[k] by {
            if k != x.sha256@ {
                assert(latest_by_sha(c).dom().contains(k));
            }
        }
        assert forall|k: Seq<char>| latest_by_sha(a).dom().contains(k) && !latest_by_sha(b).dom().contains(k)
            implies #[trigger] latest_by_sha(a + b)[k] == latest_by_sha(a)[k] by {
            assert(!latest_by_sha(c).dom().contains(k));
        }
    }
}

impl StickerStore {
    /// The library's root directory.
    pub closed spec fn root(&self) -> Seq<char> {
        self.root_directory@
    }

    /// The library's records, in index order.
    pub closed spec fn entries(&self) -> Seq<StickerRecord> {
        self.records@
    }

    /// An empty library rooted at `root_directory`.
    pub fn new(root_directory: String) -> (s: Self)
        ensures
            s.root() == root_directory@,
            s.entries() == Seq::<StickerRecord>::empty(),
    {
        StickerStore { root_directory, records: Vec::new() }
    }

    /// The library's root directory.
    pub fn root_directory(&self) -> (r: &str)
        ensures
            r@ == self.root(),
    {
        self.root_directory.as_str()
    }

    /// The path of the index file.
    pub fn index_path(&self, windows: bool) -> (r: String)
        ensures
            r@ == joined(self.root(), "library.json"@, windows),
    {
        join_path(self.root_directory.as_str(), "library.json", windows)
    }

    /// The directory holding the sticker files.
    pub fn sticker_directory(&self, windows: bool) -> (r: String)
        ensures
            r@ == joined(self.root(), "stickers"@, windows),
    {
        join_path(self.root_directory.as_str(), "stickers", windows)
    }

    /// The records in index order, as they are written to the index file.
    pub fn records(&self) -> (r: &[StickerRecord])
        ensures
            r@ == self.entries(),
    {
        self.records.as_slice()
    }

    /// Takes the records read from the index file as the library's content.
    pub fn initialize(&mut self, index_records: Vec<StickerRecord>)
        ensures
            final(self).root() == old(self).root(),
            final(self).entries() == index_records@,
    {
        self.records = index_records;
    }

    /// Puts back records saved before a change that could not be persisted.
    pub fn restore_records(&mut self, records: Vec<StickerRecord>)
        ensures
            final(self).root() == old(self).root(),
            final(self).entries() == records@,
    {
        self.records = records;
    }

    /// Drops the records whose file is missing or empty (`present[i]` tells
    /// whether the file of the `i`-th record is a non-empty file). Returns
    /// whether any record was dropped, in which case the index file must be saved.
    pub fn prune_missing_files(&mut self, present: &[bool]) -> (changed: bool)
        requires
            present.len() == old(self).entries().len(),
        ensures
            final(self).root() == old(self).root(),
            final(self).entries() == kept_records(old(self).entries(), present@),
            changed == (final(self).entries().len() != old(self).entries().len()),
    {
        let mut kept: Vec<StickerRecord> = Vec::new();
        let mut i: usize = 0;
        while i < self.records.len()
            invariant
                i <= self.records.len(),
                present.len() == self.records.len(),
                kept@ == kept_records(self.records@.take(i as int), present@),
            decreases self.records.len() - i,
        {
            assert(self.records@.take(i + 1).drop_last() == self.records@.take(i as int));
            if present[i] {
                kept.push(self.records[i].clone());
            }
            i = i + 1;
        }
        assert(self.records@.take(self.records.len() as int) == self.records@);
        let changed = kept.len() != self.records.len();
        self.records = kept;
        changed
    }

    /// All records, newest import first.
    pub fn list(&self) -> (r: Vec<StickerRecord>)
        ensures
            r@ == newest_first(self.entries()),
    {
        let mut out: Vec<StickerRecord> = Vec::new();
        let mut i: usize = 0;
        while i < self.records.len()
            invariant
                i <= self.records.len(),
                out@ == newest_first(self.records@.take(i as int)),
            decreases self.records.len() - i,
        {
            let key = self.records[i].imported_at;
            proof {
                lemma_newest_first(self.records@.take(i as int));
            }
            let mut p: usize = 0;
            while p < out.len() && out[p].imported_at >= key
                invariant
                    p <= out.len(),
                    forall|j: int| 0 <= j < p ==> out@[j].imported_at >= key,
                decreases out.len() - p,
            {
                p = p + 1;
            }
            proof {
                lemma_insert_position_unique(out@, key, p as int);
                assert(self.records@.take(i + 1).drop_last() == self.records@.take(i as int));
            }
            out.insert(p, self.records[i].clone());
            i = i + 1;
        }
        assert(self.records@.take(self.records.len() as int) == self.records@);
        out
    }

    /// The first record with the given id.
    pub fn get(&self, id: &str) -> (r: Option<&StickerRecord>)
        ensures
            match r {
                Some(rec) => id_position(self.entries(), id@) < self.entries().len()
                    && *rec == self.entries()[id_position(self.entries(), id@) as int],
                None => id_position(self.entries(), id@) == self.entries().len(),
            },
    {
        proof {
            lemma_id_position(self.records@, id@);
        }
        let i = find_id(&self.records, id);
        if i < self.records.len() {
            Some(&self.records[i])
        } else {
            None
        }
    }

    /// The path of the file of the first record with the given id.
    pub fn get_file_path(&self, id: &str, windows: bool) -> (r: Option<String>)
        ensures
            match r {
                Some(path) => id_position(self.entries(), id@) < self.entries().len()
                    && path@ == joined(
                        joined(self.root(), "stickers"@, windows),
                        self.entries()[id_position(self.entries(), id@) as int].filename@, windows),
                None => id_position(self.entries(), id@) == self.entries().len(),
            },
    {
        match self.get(id) {
            Some(record) => {
                let directory = self.sticker_directory(windows);
                Some(join_path(directory.as_str(), record.filename.as_str(), windows))
            },
            None => None,
        }
    }

    /// Sets the Feishu state of the first record with the given id. Returns
    /// whether such a record exists (and so whether the index file must be saved).
    fn patch(
        &mut self,
        id: &str,
        state: FeishuSendState,
        message_id: Option<String>,
        error_message: Option<String>,
    ) -> (found: bool)
        ensures
            final(self).root() == old(self).root(),
            found == (id_position(old(self).entries(), id@) < old(self).entries().len()),
            found ==> final(self).entries() == old(self).entries().update(
                id_position(old(self).entries(), id@) as int,
                patched(
                    old(self).entries()[id_position(old(self).entries(), id@) as int],
                    state,
                    message_id,
                    error_message,
                ),
            ),
            !found ==> final(self).entries() == old(self).entries(),
    {
        let i = find_id(&self.records, id);
        proof {
            lemma_id_position(self.records@, id@);
        }
        if i < self.records.len() {
            let mut record = self.records[i].clone();
            record.feishu_state = state;
            if message_id.is_some() || state == FeishuSendState::Sent {
                record.feishu_message_id = message_id;
            }
            record.error_message = error_message;
            self.records.set(i, record);
            true
        } else {
            false
        }
    }

    /// Marks the record as being sent; returns whether it exists.
    pub fn mark_sending(&mut self, id: &str) -> (found: bool)
        ensures
            final(self).root() == old(self).root(),
            found == (id_position(old(self).entries(), id@) < old(self).entries().len()),
            found ==> final(self).entries() == old(self).entries().update(
                id_position(old(self).entries(), id@) as int,
                patched(
                    old(self).entries()[id_position(old(self).entries(), id@) as int],
                    FeishuSendState::Sending,
                    None,
                    None,
                ),
            ),
            !found ==> final(self).entries() == old(self).entries(),
    {
        self.patch(id, FeishuSendState::Sending, None, None)
    }

    /// Marks the record as sent, with the Feishu message id when known;
    /// returns whether it exists.
    pub fn mark_sent(&mut self, id: &str, message_id: Option<String>) -> (found: bool)
        ensures
            final(self).root() == old(self).root(),
            found == (id_position(old(self).entries(), id@) < old(self).entries().len()),
            found ==> final(self).entries() == old(self).entries().update(
                id_position(old(self).entries(), id@) as int,
                patched(
                    old(self).entries()[id_position(old(self).entries(), id@) as int],
                    FeishuSendState::Sent,
                    message_id,
                    None,
                ),
            ),
            !found ==> final(self).entries() == old(self).entries(),
    {
        self.patch(id, FeishuSendState::Sent, message_id, None)
    }

    /// Marks the record as failed with the first 500 characters of `message`;
    /// returns whether it exists.
    pub fn mark_failed(&mut self, id: &str, message: String) -> (found: bool)
        ensures
            final(self).root() == old(self).root(),
            found == (id_position(old(self).entries(), id@) < old(self).entries().len()),
            found ==> {
                let p = id_position(old(self).entries(), id@) as int;
                let after = final(self).entries();
                &&& after.len() == old(self).entries().len()
                &&& forall|j: int| 0 <= j < after.len() && j != p ==> after[j] == old(self).entries()[j]
                &&& after[p].feishu_state == FeishuSendState::Failed
                &&& after[p].error_message is Some
                &&& after[p].error_message->0@ == take_chars(message@, 500)
                &&& after[p] == (StickerRecord {
                    feishu_state: FeishuSendState::Failed,
                    error_message: after[p].error_message,
                    ..old(self).entries()[p]
                })
            },
            !found ==> final(self).entries() == old(self).entries(),
    {
        let truncated = prefix_chars(message.as_str(), MAX_ERROR_CHARS);
        self.patch(id, FeishuSendState::Failed, None, Some(truncated))
    }

    /// Removes the records whose id is in `ids` and returns them in library
    /// order. Refused, with nothing removed, when one of them is being sent.
    pub fn delete_ids(&mut self, ids: &[String]) -> (r: Result<Vec<StickerRecord>, StoreError>)
        ensures
            final(self).root() == old(self).root(),
            match r {
                Ok(removed) => {
                    &&& removed@ == listed_records(old(self).entries(), ids@)
                    &&& final(self).entries() == unlisted_records(old(self).entries(), ids@)
                    &&& !any_sending(removed@)
                },
                Err(e) => {
                    &&& e is SendingInProgress
                    &&& final(self).entries() == old(self).entries()
                    &&& any_sending(listed_records(old(self).entries(), ids@))
                },
            },
            (exists|k: int|
                0 <= k < old(self).entries().len() && id_listed(ids@, #[trigger] old(self).entries()[k].id@)
                    && old(self).entries()[k].feishu_state == FeishuSendState::Sending) ==> (r matches Err(
                StoreError::SendingInProgress,
            ) && final(self).entries() == old(self).entries()),
    {
        proof {
            if exists|k: int|
                0 <= k < self.records@.len() && id_listed(ids@, #[trigger] self.records@[k].id@)
                    && self.records@[k].feishu_state == FeishuSendState::Sending {
                let k = choose|k: int|
                    0 <= k < self.records@.len() && id_listed(ids@, #[trigger] self.records@[k].id@)
                        && self.records@[k].feishu_state == FeishuSendState::Sending;
                law_sending_sticker_blocks_delete(self.records@, ids@, k);
            }
        }
        let mut removed: Vec<StickerRecord> = Vec::new();
        let mut kept: Vec<StickerRecord> = Vec::new();
        let mut sending = false;
        let mut i: usize = 0;
        while i < self.records.len()
            invariant
                i <= self.records.len(),
                removed@ == listed_records(self.records@.take(i as int), ids@),
                kept@ == unlisted_records(self.records@.take(i as int), ids@),
                sending == any_sending(removed@),
            decreases self.records.len() - i,
        {
            assert(self.records@.take(i + 1).drop_last() == self.records@.take(i as int));
            if id_in(ids, self.records[i].id.as_str()) {
                let ghost before = removed@;
                if self.records[i].feishu_state == FeishuSendState::Sending {
                    sending = true;
                }
                removed.push(self.records[i].clone());
                proof {
                    if sending {
                        if self.records@[i as int].feishu_state == FeishuSendState::Sending {
                            assert(removed@[removed@.len() - 1].feishu_state == FeishuSendState::Sending);
                        } else {
                            let k = choose|k: int| 0 <= k < before.len() && before[k].feishu_state == FeishuSendState::Sending;
                            assert(removed@[k] == before[k]);
                        }
                    } else {
                        assert forall|k: int| 0 <= k < removed@.len() implies removed@[k].feishu_state != FeishuSendState::Sending by {
                            if k < before.len() {
                                assert(removed@[k] == before[k]);
                            }
                        }
                    }
                }
            } else {
                kept.push(self.records[i].clone());
            }
            i = i + 1;
        }
        assert(self.records@.take(self.records.len() as int) == self.records@);
        if sending {
            return Err(StoreError::SendingInProgress);
        }
        self.records = kept;
        Ok(removed)
    }

    /// What offering `buffer` to the library amounts to. The image type is the
    /// one its magic bytes announce, else the declared `image/` type.
    pub fn prepare_add(
        &self,
        buffer: &[u8],
        mime_type: Option<&str>,
        wechat_md5: Option<String>,
        source_url: Option<String>,
        imported_at: u64,
    ) -> (r: AddPlan)
        ensures
            add_plan_spec(r, self.entries(), buffer@, opt_str_view(mime_type), wechat_md5, source_url, imported_at),
    {
        if buffer.len() == 0 || buffer.len() > MAX_STICKER_BYTES {
            return AddPlan::Rejected;
        }
        let mime: String = match sniff_image_mime(buffer) {
            Some(m) => crate::text::owned(m),
            None => match mime_type {
                Some(declared) => {
                    if str_starts_with(declared, "image/") {
                        crate::text::owned(declared)
                    } else {
                        return AddPlan::Rejected;
                    }
                },
                None => {
                    return AddPlan::Rejected;
                },
            },
        };
        let sha256 = sha256_hex_of(buffer);
        let p = find_sha(&self.records, sha256.as_str());
        proof {
            lemma_sha_position(self.records@, sha256@);
        }
        if p < self.records.len() {
            return AddPlan::Existing(self.records[p].clone());
        }
        let extension = extension_for_mime(mime.as_str());
        let filename = concat(sha256.as_str(), extension);
        let id = prefix_chars(sha256.as_str(), 24);
        AddPlan::New(StickerRecord {
            id,
            sha256,
            wechat_md5,
            filename,
            mime_type: mime,
            bytes: buffer.len() as u64,
            source_url,
            imported_at,
            feishu_state: FeishuSendState::Pending,
            feishu_message_id: None,
            error_message: None,
        })
    }

    /// Puts a new record at the front of the library.
    pub fn insert_new(&mut self, record: StickerRecord)
        ensures
            final(self).root() == old(self).root(),
            final(self).entries() == seq![record] + old(self).entries(),
    {
        self.records.insert(0, record);
        assert(old(self).entries().insert(0, record) =~= seq![record] + old(self).entries());
    }

    /// Offers a downloaded image to the library: a new image becomes the first
    /// record; an image already held (same SHA-256) is returned as it is.
    pub fn add_buffer(
        &mut self,
        buffer: &[u8],
        mime_type: Option<&str>,
        wechat_md5: Option<String>,
        source_url: Option<String>,
        imported_at: u64,
    ) -> (r: AddResult)
        ensures
            final(self).root() == old(self).root(),
            rejected_buffer(buffer@, opt_str_view(mime_type)) ==> {
                &&& !r.added
                &&& r.record is None
                &&& final(self).entries() == old(self).entries()
            },
            !rejected_buffer(buffer@, opt_str_view(mime_type))
                && sha_position(old(self).entries(), sha256_hex(buffer@)) < old(self).entries().len() ==> {
                &&& !r.added
                &&& r.record == Some(old(self).entries()[sha_position(old(self).entries(), sha256_hex(buffer@)) as int])
                &&& final(self).entries() == old(self).entries()
            },
            !rejected_buffer(buffer@, opt_str_view(mime_type))
                && sha_position(old(self).entries(), sha256_hex(buffer@)) == old(self).entries().len() ==> {
                &&& r.added
                &&& r.record matches Some(rec) && is_new_record(
                    rec,
                    buffer@,
                    accepted_mime(buffer@, opt_str_view(mime_type))->0,
                    wechat_md5,
                    source_url,
                    imported_at,
                )
                &&& final(self).entries() == seq![r.record->0] + old(self).entries()
            },
    {
        proof {
            lemma_sha_position(self.records@, sha256_hex(buffer@));
        }
        match self.prepare_add(buffer, mime_type, wechat_md5, source_url, imported_at) {
            AddPlan::Rejected => AddResult { added: false, record: None },
            AddPlan::Existing(record) => AddResult { added: false, record: Some(record) },
            AddPlan::New(record) => {
                let kept = record.clone();
                self.insert_new(record);
                AddResult { added: true, record: Some(kept) }
            },
        }
    }

    /// A `data:` URL of the first record with the given id, from its file's bytes.
    pub fn get_data_url(&self, id: &str, file_bytes: &[u8]) -> (r: Option<String>)
        ensures
            match r {
                Some(url) => id_position(self.entries(), id@) < self.entries().len()
                    && url@ == data_url_spec(
                        self.entries()[id_position(self.entries(), id@) as int].mime_type@,
                        file_bytes@,
                    ),
                None => id_position(self.entries(), id@) == self.entries().len(),
            },
    {
        match self.get(id) {
            Some(record) => Some(data_url(record.mime_type.as_str(), file_bytes)),
            None => None,
        }
    }

    /// What moving the library to `destination_root` amounts to.
    /// `destination_is_absolute` tells whether the platform sees the path as absolute.
    pub fn plan_migration(
        &self,
        destination_root: &str,
        destination_is_absolute: bool,
        windows: bool,
    ) -> (r: Result<MigrationPlan, StoreError>)
        ensures
            !destination_is_absolute ==> r matches Err(StoreError::NotAbsolute),
            destination_is_absolute && same_path_spec(destination_root@, self.root(), windows) ==> {
                &&& r matches Ok(MigrationPlan::Unchanged(m))
                &&& m.previous_root@ == self.root()
                &&& m.previous_records@ == self.entries()
                &&& m.migrated_count == 0
            },
            destination_is_absolute && !same_path_spec(destination_root@, self.root(), windows)
                && paths_overlap_spec(self.root(), destination_root@, windows) ==> r matches Err(
                StoreError::OverlappingLibraries,
            ),
            destination_is_absolute && !same_path_spec(destination_root@, self.root(), windows)
                && !paths_overlap_spec(self.root(), destination_root@, windows) ==> {
                &&& r matches Ok(MigrationPlan::Copy { destination, sticker_directory, index_path, copies })
                &&& destination@ == destination_root@
                &&& sticker_directory@ == joined(destination_root@, "stickers"@, windows)
                &&& index_path@ == joined(destination_root@, "library.json"@, windows)
                &&& copies@.len() == self.entries().len()
                &&& forall|i: int| 0 <= i < copies@.len() ==> {
                    let c = #[trigger] copies@[i];
                    let rec = self.entries()[i];
                    &&& c.filename@ == rec.filename@
                    &&& c.sha256@ == rec.sha256@
                    &&& c.source@ == joined(joined(self.root(), "stickers"@, windows), rec.filename@, windows)
                    &&& c.target@ == joined(joined(destination_root@, "stickers"@, windows), rec.filename@, windows)
                }
            },
    {
        if !destination_is_absolute {
            return Err(StoreError::NotAbsolute);
        }
        if same_path(destination_root, self.root_directory.as_str(), windows) {
            return Ok(MigrationPlan::Unchanged(StickerMigrationResult {
                previous_root: self.root_directory.clone(),
                previous_records: self.records.clone(),
                migrated_count: 0,
            }));
        }
        if paths_overlap(self.root_directory.as_str(), destination_root, windows) {
            return Err(StoreError::OverlappingLibraries);
        }
        let source_directory = self.sticker_directory(windows);
        let target_directory = join_path(destination_root, "stickers", windows);
        let mut copies: Vec<FileCopy> = Vec::new();
        let mut i: usize = 0;
        while i < self.records.len()
            invariant
                i <= self.records.len(),
                source_directory@ == joined(self.root(), "stickers"@, windows),
                target_directory@ == joined(destination_root@, "stickers"@, windows),
                copies@.len() == i,
                forall|j: int| 0 <= j < i ==> {
                    let c = #[trigger] copies@[j];
                    let rec = self.entries()[j];
                    &&& c.filename@ == rec.filename@
                    &&& c.sha256@ == rec.sha256@
                    &&& c.source@ == joined(joined(self.root(), "stickers"@, windows), rec.filename@, windows)
                    &&& c.target@ == joined(joined(destination_root@, "stickers"@, windows), rec.filename@, windows)
                },
            decreases self.records.len() - i,
        {
            let record = &self.records[i];
            copies.push(FileCopy {
                filename: record.filename.clone(),
                sha256: record.sha256.clone(),
                source: join_path(source_directory.as_str(), record.filename.as_str(), windows),
                target: join_path(target_directory.as_str(), record.filename.as_str(), windows),
            });
            i = i + 1;
        }
        Ok(MigrationPlan::Copy {
            destination: crate::text::owned(destination_root),
            sticker_directory: target_directory,
            index_path: join_path(destination_root, "library.json", windows),
            copies,
        })
    }

    /// Checks a file already present at a copy's target: it must hold the
    /// same image (same SHA-256) as the sticker being moved.
    pub fn check_copy_target(copy: &FileCopy, existing: &[u8]) -> (r: Result<(), StoreError>)
        ensures
            r is Ok <==> sha256_hex(existing@) == copy.sha256@,
            r matches Err(e) ==> e matches StoreError::ContentMismatch(name) && name@ == copy.filename@,
    {
        let digest = sha256_hex_of(existing);
        if str_eq(digest.as_str(), copy.sha256.as_str()) {
            Ok(())
        } else {
            Err(StoreError::ContentMismatch(copy.filename.clone()))
        }
    }

    /// Makes `destination` the library root with the merged records, and
    /// returns what the library held before.
    pub fn complete_migration(&mut self, destination: String, merged: Vec<StickerRecord>) -> (r: StickerMigrationResult)
        ensures
            final(self).root() == destination@,
            final(self).entries() == merged@,
            r.previous_root@ == old(self).root(),
            r.previous_records@ == old(self).entries(),
            r.migrated_count == old(self).entries().len(),
    {
        let mut previous_root = destination;
        std::mem::swap(&mut previous_root, &mut self.root_directory);
        let mut previous_records = merged;
        std::mem::swap(&mut previous_records, &mut self.records);
        let migrated_count = previous_records.len();
        StickerMigrationResult { previous_root, previous_records, migrated_count }
    }

    /// Goes back to the library at `root_directory` with the records its index file holds.
    pub fn restore_root(&mut self, root_directory: String, index_records: Vec<StickerRecord>)
        ensures
            final(self).root() == root_directory@,
            final(self).entries() == index_records@,
    {
        self.root_directory = root_directory;
        self.records = index_records;
    }

    /// What to remove of the library left behind by a migration; nothing when
    /// the library did not move.
    pub fn cleanup_previous_library(&self, migration: &StickerMigrationResult, windows: bool) -> (r: Option<CleanupPlan>)
        ensures
            r is None <==> same_path_spec(migration.previous_root@, self.root(), windows),
            r matches Some(plan) ==> {
                let old_stickers = joined(migration.previous_root@, "stickers"@, windows);
                &&& plan.root@ == migration.previous_root@
                &&& plan.sticker_directory@ == old_stickers
                &&& plan.index@ == joined(migration.previous_root@, "library.json"@, windows)
                &&& plan.files@.len() == migration.previous_records@.len()
                &&& forall|i: int| 0 <= i < plan.files@.len() ==> #[trigger] plan.files@[i]@ == joined(
                    old_stickers,
                    migration.previous_records@[i].filename@, windows)
            },
    {
        if same_path(migration.previous_root.as_str(), self.root_directory.as_str(), windows) {
            return None;
        }
        let old_stickers = join_path(migration.previous_root.as_str(), "stickers", windows);
        let mut files: Vec<String> = Vec::new();
        let mut i: usize = 0;
        while i < migration.previous_records.len()
            invariant
                i <= migration.previous_records.len(),
                old_stickers@ == joined(migration.previous_root@, "stickers"@, windows),
                files@.len() == i,
                forall|j: int| 0 <= j < i ==> #[trigger] files@[j]@ == joined(
                    old_stickers@,
                    migration.previous_records@[j].filename@, windows),
            decreases migration.previous_records.len() - i,
        {
            files.push(join_path(old_stickers.as_str(), migration.previous_records[i].filename.as_str(), windows));
            i = i + 1;
        }
        Some(CleanupPlan {
            files,
            index: join_path(migration.previous_root.as_str(), "library.json", windows),
            sticker_directory: old_stickers,
            root: migration.previous_root.clone(),
        })
    }

    /// What a ZIP export holds, newest first: each sticker under `stickers/`,
    /// then the index file `library.json` with version `INDEX_VERSION` and the
    /// listed records. Refused when the library is empty. The export reports
    /// the number of records.
    pub fn export_entries(&self, windows: bool) -> (r: Result<ExportPlan, StoreError>)
        ensures
            r is Err <==> self.entries().len() == 0,
            r matches Err(e) ==> e is NothingToExport,
            r matches Ok(plan) ==> {
                let listed = newest_first(self.entries());
                let entries = plan.entries;
                &&& plan.index_name@ == "library.json"@
                &&& plan.index_version == INDEX_VERSION
                &&& plan.index_records@ == listed
                &&& entries@.len() == listed.len()
                &&& forall|i: int| 0 <= i < entries@.len() ==> {
                    let e = #[trigger] entries@[i];
                    &&& e.archive_name@ == "stickers/"@ + listed[i].filename@
                    &&& e.source@ == joined(joined(self.root(), "stickers"@, windows), listed[i].filename@, windows)
                }
            },
    {
        if self.records.len() == 0 {
            return Err(StoreError::NothingToExport);
        }
        let listed = self.list();
        let directory = self.sticker_directory(windows);
        let mut entries: Vec<ExportEntry> = Vec::new();
        let mut i: usize = 0;
        while i < listed.len()
            invariant
                i <= listed.len(),
                listed@ == newest_first(self.entries()),
                directory@ == joined(self.root(), "stickers"@, windows),
                entries@.len() == i,
                forall|j: int| 0 <= j < i ==> {
                    let e = #[trigger] entries@[j];
                    &&& e.archive_name@ == "stickers/"@ + listed@[j].filename@
                    &&& e.source@ == joined(joined(self.root(), "stickers"@, windows), listed@[j].filename@, windows)
                },
            decreases listed.len() - i,
        {
            entries.push(ExportEntry {
                archive_name: concat("stickers/", listed[i].filename.as_str()),
                source: join_path(directory.as_str(), listed[i].filename.as_str(), windows),
            });
            i = i + 1;
        }
        Ok(ExportPlan { entries, index_name: crate::text::owned("library.json"), index_version: INDEX_VERSION, index_records: listed })
    }
}


// ------------------------------------------------------------------
// Laws of the library
// ------------------------------------------------------------------

/// The records after a plan for a buffer is carried out: a new record goes
/// first, anything else leaves the records as they are.
pub open spec fn library_after_add(records: Seq<StickerRecord>, plan: AddPlan) -> Seq<StickerRecord> {
    match plan {
        AddPlan::New(r) => seq![r] + records,
        _ => records,
    }
}

/// Law: the library never holds two records with the same SHA-256; adding
/// an image keeps it so.
pub proof fn law_add_keeps_digests_unique(
    records: Seq<StickerRecord>,
    plan: AddPlan,
    buffer: Seq<u8>,
    declared: Option<Seq<char>>,
    wechat_md5: Option<String>,
    source_url: Option<String>,
    imported_at: u64,
)
    requires
        unique_sha(records),
        add_plan_spec(plan, records, buffer, declared, wechat_md5, source_url, imported_at),
    ensures
        unique_sha(library_after_add(records, plan)),
{
    if let AddPlan::New(r) = plan {
        lemma_sha_position(records, sha256_hex(buffer));
        let v = seq![r] + records;
        assert forall|i: int, j: int| 0 <= i < j < v.len() implies v[i].sha256@ != v[j].sha256@ by {
            assert(v[j] == records[j - 1]);
            if i > 0 {
                assert(v[i] == records[i - 1]);
            }
        }
    }
}

/// Law: offering the same image twice stores it once; the second offer is
/// answered with the record the library holds for its digest.
pub proof fn law_add_twice_stores_once(
    records: Seq<StickerRecord>,
    buffer: Seq<u8>,
    declared: Option<Seq<char>>,
    first: AddPlan,
    first_md5: Option<String>,
    first_source: Option<String>,
    first_at: u64,
    second: AddPlan,
    second_md5: Option<String>,
    second_source: Option<String>,
    second_at: u64,
)
    requires
        !rejected_buffer(buffer, declared),
        add_plan_spec(first, records, buffer, declared, first_md5, first_source, first_at),
        add_plan_spec(second, library_after_add(records, first), buffer, declared, second_md5, second_source, second_at),
    ensures
        second matches AddPlan::Existing(held) && held.sha256@ == sha256_hex(buffer),
        library_after_add(library_after_add(records, first), second) == library_after_add(records, first),
{
    let h = sha256_hex(buffer);
    lemma_sha_position(records, h);
    let after = library_after_add(records, first);
    if let AddPlan::New(r) = first {
        assert(after[0] == r);
        assert(sha_position(after, h) == 0);
    }
    lemma_sha_position(after, h);
}

/// Law: deleting by id splits the library: every record is either removed
/// (its id was given) or kept (its id was not), in library order.
pub proof fn law_delete_partitions(s: Seq<StickerRecord>, ids: Seq<String>)
    ensures
        listed_records(s, ids).to_multiset().add(unlisted_records(s, ids).to_multiset()) == s.to_multiset(),
        forall|i: int| 0 <= i < listed_records(s, ids).len() ==> id_listed(ids, #[trigger] listed_records(s, ids)[i].id@),
        forall|i: int| 0 <= i < unlisted_records(s, ids).len() ==> !id_listed(ids, #[trigger] unlisted_records(s, ids)[i].id@),
    decreases s.len(),
{
    if s.len() > 0 {
        let d = s.drop_last();
        let x = s.last();
        law_delete_partitions(d, ids);
        assert(s == d.push(x));
        let l = listed_records(d, ids);
        let u = unlisted_records(d, ids);
        if id_listed(ids, x.id@) {
            assert(listed_records(s, ids) == l.push(x));
            assert(l.push(x).to_multiset() == l.to_multiset().insert(x));
            assert forall|i: int| 0 <= i < l.push(x).len() implies id_listed(ids, #[trigger] l.push(x)[i].id@) by {
                if i < l.len() {
                    assert(l.push(x)[i] == l[i]);
                }
            }
        } else {
            assert(unlisted_records(s, ids) == u.push(x));
            assert(u.push(x).to_multiset() == u.to_multiset().insert(x));
            assert forall|i: int| 0 <= i < u.push(x).len() implies !id_listed(ids, #[trigger] u.push(x)[i].id@) by {
                if i < u.len() {
                    assert(u.push(x)[i] == u[i]);
                }
            }
        }
        assert(s.to_multiset() == d.to_multiset().insert(x));
    }
}


/// Law: a sticker just added comes first in the library and is the one
/// found under its id.
pub proof fn law_added_sticker_is_found(records: Seq<StickerRecord>, added: StickerRecord)
    ensures
        library_after_add(records, AddPlan::New(added))[0] == added,
        id_position(library_after_add(records, AddPlan::New(added)), added.id@) == 0,
{
    let after = library_after_add(records, AddPlan::New(added));
    assert(after[0] == added);
    assert(after.len() > 0);
}

/// Law: once deleted, a sticker is no longer found under its id.
pub proof fn law_deleted_sticker_is_gone(s: Seq<StickerRecord>, ids: Seq<String>, id: Seq<char>)
    requires
        id_listed(ids, id),
    ensures
        id_position(unlisted_records(s, ids), id) == unlisted_records(s, ids).len(),
{
    let kept = unlisted_records(s, ids);
    law_delete_partitions(s, ids);
    lemma_id_position(kept, id);
    if id_position(kept, id) < kept.len() {
        let p = id_position(kept, id) as int;
        assert(!id_listed(ids, kept[p].id@));
    }
}


/// Law: a delete that names a sticker being sent to Feishu is refused: the
/// listed records then include one in the `Sending` state.
pub proof fn law_sending_sticker_blocks_delete(s: Seq<StickerRecord>, ids: Seq<String>, k: int)
    requires
        0 <= k < s.len(),
        id_listed(ids, s[k].id@),
        s[k].feishu_state == FeishuSendState::Sending,
    ensures
        exists|j: int|
            0 <= j < listed_records(s, ids).len() && (#[trigger] listed_records(s, ids)[j]).feishu_state
                == FeishuSendState::Sending,
        any_sending(listed_records(s, ids)),
    decreases s.len(),
{
    let d = s.drop_last();
    let l = listed_records(s, ids);
    if k == s.len() - 1 {
        assert(l == listed_records(d, ids).push(s.last()));
        assert(l[l.len() - 1].feishu_state == FeishuSendState::Sending);
    } else {
        assert(d[k] == s[k]);
        law_sending_sticker_blocks_delete(d, ids, k);
        let ld = listed_records(d, ids);
        let j = choose|j: int| 0 <= j < ld.len() && (#[trigger] ld[j]).feishu_state == FeishuSendState::Sending;
        if id_listed(ids, s.last().id@) {
            assert(l == ld.push(s.last()));
            assert(l[j] == ld[j]);
        } else {
            assert(l == ld);
        }
        assert(l[j].feishu_state == FeishuSendState::Sending);
    }
}

/// Law: the magic bytes decide the image type: PNG's eight-byte signature,
/// `GIF87a` or `GIF89a`, JPEG's `FF D8 FF`, or `RIFF` followed after the size
/// by `WEBP`; a buffer starting otherwise has no image type.
pub proof fn law_image_signatures(b: Seq<u8>)
    ensures
        b.len() >= 8 && b[0] == 0x89 && b[1] == 0x50 && b[2] == 0x4e && b[3] == 0x47 && b[4] == 0x0d && b[5] == 0x0a
            && b[6] == 0x1a && b[7] == 0x0a ==> sniffed_mime(b) == Some("image/png"@),
        b.len() >= 6 && b[0] == 0x47 && b[1] == 0x49 && b[2] == 0x46 && b[3] == 0x38 && (b[4] == 0x37 || b[4] == 0x39)
            && b[5] == 0x61 ==> sniffed_mime(b) == Some("image/gif"@),
        b.len() >= 3 && b[0] == 0xff && b[1] == 0xd8 && b[2] == 0xff ==> sniffed_mime(b) == Some("image/jpeg"@),
        b.len() >= 12 && b[0] == 0x52 && b[1] == 0x49 && b[2] == 0x46 && b[3] == 0x46 && b[8] == 0x57 && b[9] == 0x45
            && b[10] == 0x42 && b[11] == 0x50 ==> sniffed_mime(b) == Some("image/webp"@),
        b.len() == 0 || (b[0] != 0x89 && b[0] != 0x47 && b[0] != 0xff && b[0] != 0x52) ==> sniffed_mime(b) is None,
{
    if b.len() >= 8 && b[0] == 0x89 && b[1] == 0x50 && b[2] == 0x4e && b[3] == 0x47 && b[4] == 0x0d && b[5] == 0x0a
        && b[6] == 0x1a && b[7] == 0x0a {
        assert(b.take(8) =~= png_signature());
    }
    if b.len() >= 6 && b[0] == 0x47 && b[1] == 0x49 && b[2] == 0x46 && b[3] == 0x38 && b[5] == 0x61 {
        if b.len() >= 8 {
            assert(b.take(8)[0] != png_signature()[0]);
        }
        if b[4] == 0x37 {
            assert(b.take(6) =~= seq![0x47u8, 0x49u8, 0x46u8, 0x38u8, 0x37u8, 0x61u8]);
        }
        if b[4] == 0x39 {
            assert(b.take(6) =~= seq![0x47u8, 0x49u8, 0x46u8, 0x38u8, 0x39u8, 0x61u8]);
        }
    }
    if b.len() >= 3 && b[0] == 0xff && b[1] == 0xd8 && b[2] == 0xff {
        if b.len() >= 8 {
            assert(b.take(8)[0] != png_signature()[0]);
        }
        if b.len() >= 6 {
            assert(b.take(6)[0] != 0x47u8);
            assert(b.take(6) != seq![0x47u8, 0x49u8, 0x46u8, 0x38u8, 0x37u8, 0x61u8]);
            assert(b.take(6) != seq![0x47u8, 0x49u8, 0x46u8, 0x38u8, 0x39u8, 0x61u8]);
        }
        assert(b.take(3) =~= seq![0xffu8, 0xd8u8, 0xffu8]);
    }
    if b.len() >= 1 && b[0] != 0x89 && b[0] != 0x47 && b[0] != 0xff {
        if b.len() >= 8 {
            assert(b.take(8)[0] != png_signature()[0]);
        }
        if b.len() >= 6 {
            assert(b.take(6)[0] == b[0]);
            assert(b.take(6) != seq![0x47u8, 0x49u8, 0x46u8, 0x38u8, 0x37u8, 0x61u8]);
            assert(b.take(6) != seq![0x47u8, 0x49u8, 0x46u8, 0x38u8, 0x39u8, 0x61u8]);
        }
        if b.len() >= 3 {
            assert(b.take(3)[0] == b[0]);
            assert(b.take(3) != seq![0xffu8, 0xd8u8, 0xffu8]);
        }
        if b.len() >= 12 && b[0] == 0x52 && b[1] == 0x49 && b[2] == 0x46 && b[3] == 0x46 && b[8] == 0x57 && b[9] == 0x45
            && b[10] == 0x42 && b[11] == 0x50 {
            assert(b.subrange(0, 4) =~= seq![0x52u8, 0x49u8, 0x46u8, 0x46u8]);
            assert(b.subrange(8, 12) =~= seq![0x57u8, 0x45u8, 0x42u8, 0x50u8]);
        }
        if b[0] != 0x52 && b.len() >= 12 {
            assert(b.subrange(0, 4)[0] == b[0]);
            assert(b.subrange(0, 4) != seq![0x52u8, 0x49u8, 0x46u8, 0x46u8]);
        }
    }
}

} // verus!
