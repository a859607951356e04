use vstd::prelude::*;
use crate::feishu::{cli_binary_spec, cli_binary_name, MAX_ARCHIVE_BYTES, MAX_METADATA_BYTES};
use crate::text::{chars_of, ends_with, replace_all, replace_str, str_ends_with, str_eq};

verus! {

broadcast use vstd::std_specs::vec::group_vec_axioms;

// ------------------------------------------------------------------
// What the archive crates read
// ------------------------------------------------------------------

/// The entry paths of a gzip-compressed tar archive, in order, as `tar`
/// reads them through `flate2::read::GzDecoder` (the raw path bytes of each
/// entry, as UTF-8 with invalid sequences replaced), and the error that
/// ended the listing, if one did.
pub uninterp spec fn tar_gz_listing(archive: Seq<u8>) -> (Seq<Seq<char>>, Option<Seq<char>>);

/// At most the first `limit` bytes of the entry at `index` of a
/// gzip-compressed tar archive, or the error met on the way; none when the
/// archive ends before that entry.
pub uninterp spec fn tar_gz_entry(archive: Seq<u8>, index: nat, limit: u64) -> Option<Result<Seq<u8>, Seq<char>>>;

/// The entry names of a zip archive, in order, as `zip::ZipArchive` gives
/// them, and the error that ended the listing, if one did; or the error
/// that kept the archive from opening.
pub uninterp spec fn zip_listing(archive: Seq<u8>) -> Result<(Seq<Seq<char>>, Option<Seq<char>>), Seq<char>>;

/// At most the first `limit` bytes of the entry at `index` of a zip
/// archive, or the error met on the way.
pub uninterp spec fn zip_entry(archive: Seq<u8>, index: nat, limit: u64) -> Result<Seq<u8>, Seq<char>>;

/// The text that `bytes` encode in UTF-8, none when they are not UTF-8.
pub uninterp spec fn utf8_decoded(bytes: Seq<u8>) -> Option<Seq<char>>;

/// The texts of a vector of strings.
pub open spec fn texts_of(v: Seq<String>) -> Seq<Seq<char>> {
    v.map_values(|s: String| s@)
}

/// The view of a result of bytes.
pub open spec fn bytes_result(r: Result<Vec<u8>, String>) -> Result<Seq<u8>, Seq<char>> {
    match r {
        Ok(b) => Ok(b@),
        Err(e) => Err(e@),
    }
}

/// `tar::Archive::new(GzDecoder::new(archive)).entries()`: the path of each
/// entry (`Entry::path_bytes`, through `String::from_utf8_lossy`) until the
/// first error.
#[verifier::external_body]
fn list_tar_gz(archive: &[u8]) -> (r: (Vec<String>, Option<String>))
    ensures
        (texts_of(r.0@), match r.1 { Some(e) => Some(e@), None => None }) == tar_gz_listing(archive@),
{
    let mut names = Vec::new();
    let mut tar = tar::Archive::new(flate2::read::GzDecoder::new(std::io::Cursor::new(archive)));
    let entries = match tar.entries() {
        Ok(entries) => entries,
        Err(error) => return (names, Some(error.to_string())),
    };
    for entry in entries {
        match entry.map(|e| String::from_utf8_lossy(&e.path_bytes()).into_owned()) {
            Ok(name) => names.push(name),
            Err(error) => return (names, Some(error.to_string())),
        }
    }
    (names, None)
}

/// The entry at `index` of `tar::Archive::new(GzDecoder::new(archive))`
/// (`entries().nth(index)`), read through `take(limit)`.
#[verifier::external_body]
fn read_tar_gz_entry(archive: &[u8], index: usize, limit: u64) -> (r: Option<Result<Vec<u8>, String>>)
    ensures
        match r {
            Some(b) => tar_gz_entry(archive@, index as nat, limit) == Some(bytes_result(b)),
            None => tar_gz_entry(archive@, index as nat, limit) is None,
        },
{
    let mut tar = tar::Archive::new(flate2::read::GzDecoder::new(std::io::Cursor::new(archive)));
    let mut entries = match tar.entries() {
        Ok(entries) => entries,
        Err(error) => return Some(Err(error.to_string())),
    };
    let entry = match entries.nth(index)? {
        Ok(entry) => entry,
        Err(error) => return Some(Err(error.to_string())),
    };
    let mut output = Vec::new();
    Some(std::io::Read::read_to_end(&mut std::io::Read::take(entry, limit), &mut output).map(|_| output).map_err(|error| error.to_string()))
}

/// `zip::ZipArchive::new(archive)`, then the name of each entry
/// (`by_index(i).name()`) until the first error.
#[verifier::external_body]
fn list_zip(archive: &[u8]) -> (r: Result<(Vec<String>, Option<String>), String>)
    ensures
        match r {
            Ok(l) => zip_listing(archive@) == Ok::<(Seq<Seq<char>>, Option<Seq<char>>), Seq<char>>(
                (texts_of(l.0@), match l.1 { Some(e) => Some(e@), None => None }),
            ),
            Err(e) => zip_listing(archive@) == Err::<(Seq<Seq<char>>, Option<Seq<char>>), Seq<char>>(e@),
        },
{
    let mut zip = zip::ZipArchive::new(std::io::Cursor::new(archive)).map_err(|error| error.to_string())?;
    let mut names = Vec::new();
    for index in 0..zip.len() {
        match zip.by_index(index) {
            Ok(entry) => names.push(entry.name().to_string()),
            Err(error) => return Ok((names, Some(error.to_string()))),
        }
    }
    Ok((names, None))
}

/// `zip::ZipArchive::new(archive)`, then `by_index(index)` read through `take(limit)`.
#[verifier::external_body]
fn read_zip_entry(archive: &[u8], index: usize, limit: u64) -> (r: Result<Vec<u8>, String>)
    ensures
        bytes_result(r) == zip_entry(archive@, index as nat, limit),
{
    let mut zip = zip::ZipArchive::new(std::io::Cursor::new(archive)).map_err(|error| error.to_string())?;
    let entry = zip.by_index(index).map_err(|error| error.to_string())?;
    let mut output = Vec::new();
    std::io::Read::read_to_end(&mut std::io::Read::take(entry, limit), &mut output).map_err(|error| error.to_string())?;
    Ok(output)
}

/// `std::str::from_utf8`: the text that `bytes` encode in UTF-8.
#[verifier::external_body]
fn decode_utf8(bytes: &[u8]) -> (r: Option<String>)
    ensures
        match r {
            Some(t) => utf8_decoded(bytes@) == Some(t@),
            None => utf8_decoded(bytes@) is None,
        },
{
    std::str::from_utf8(bytes).ok().map(|text| text.to_string())
}


// ------------------------------------------------------------------
// File names inside archives
// ------------------------------------------------------------------

/// Whether `c` separates path components (`\` too on Windows).
pub open spec fn is_separator(c: char, windows: bool) -> bool {
    c == '/' || (windows && c == '\\')
}

/// Where the last component of `p` starts: just after its last separator.
pub open spec fn tail_start(p: Seq<char>, windows: bool) -> nat
    decreases p.len(),
{
    if p.len() == 0 {
        0
    } else if is_separator(p.last(), windows) {
        p.len()
    } else {
        tail_start(p.drop_last(), windows)
    }
}

/// The final component of a path, as `Path::file_name` names it: trailing
/// separators and `.` components are passed over, a final `..` names
/// nothing.
pub open spec fn file_name_of(p: Seq<char>, windows: bool) -> Option<Seq<char>>
    decreases p.len(),
{
    if p.len() == 0 {
        None
    } else if is_separator(p.last(), windows) {
        file_name_of(p.drop_last(), windows)
    } else {
        let start = tail_start(p, windows);
        let segment = p.subrange(start as int, p.len() as int);
        if segment == seq!['.'] {
            proof {
                lemma_tail_start(p, windows);
            }
            file_name_of(p.subrange(0, start as int), windows)
        } else if segment == seq!['.', '.'] {
            None
        } else {
            Some(segment)
        }
    }
}

/// Where the last component starts, and that it holds no separator.
pub proof fn lemma_tail_start(p: Seq<char>, windows: bool)
    ensures
        tail_start(p, windows) <= p.len(),
        p.len() > 0 && !is_separator(p.last(), windows) ==> tail_start(p, windows) < p.len(),
        forall|i: int| tail_start(p, windows) <= i < p.len() ==> !is_separator(#[trigger] p[i], windows),
        tail_start(p, windows) > 0 ==> is_separator(p[tail_start(p, windows) - 1], windows),
    decreases p.len(),
{
    if p.len() > 0 && !is_separator(p.last(), windows) {
        lemma_tail_start(p.drop_last(), windows);
        assert forall|i: int| tail_start(p, windows) <= i < p.len() implies !is_separator(#[trigger] p[i], windows) by {
            if i < p.len() - 1 {
                assert(p[i] == p.drop_last()[i]);
            }
        }
    }
}

/// Whether `c` separates path components.
fn separator(c: char, windows: bool) -> (r: bool)
    ensures
        r == is_separator(c, windows),
{
    c == '/' || (windows && c == '\\')
}

/// The final component of a path, as `Path::file_name` names it.
pub fn path_file_name(path: &str, windows: bool) -> (r: Option<Vec<char>>)
    ensures
        match r {
            Some(name) => file_name_of(path@, windows) == Some(name@),
            None => file_name_of(path@, windows) is None,
        },
{
    let cs = chars_of(path);
    let mut end: usize = cs.len();
    assert(path@.take(end as int) == path@);
    loop
        invariant
            end <= cs.len(),
            cs@ == path@,
            file_name_of(path@, windows) == file_name_of(path@.take(end as int), windows),
        decreases end,
    {
        let ghost p = path@.take(end as int);
        if end == 0 {
            return None;
        }
        if separator(cs[end - 1], windows) {
            assert(p.drop_last() == path@.take(end - 1));
            end = end - 1;
        } else {
            let mut start: usize = end;
            assert(p.take(end as int) == p);
            while start > 0 && !separator(cs[start - 1], windows)
                invariant
                    start <= end <= cs.len(),
                    cs@ == path@,
                    p == path@.take(end as int),
                    tail_start(p, windows) == tail_start(p.take(start as int), windows),
                    forall|i: int| start <= i < end ==> !is_separator(#[trigger] p[i], windows),
                decreases start,
            {
                assert(p.take(start as int).drop_last() == p.take(start - 1));
                start = start - 1;
            }
            proof {
                if start > 0 {
                    assert(p.take(start as int).last() == cs@[start - 1]);
                } else {
                    assert(p.take(0) == Seq::<char>::empty());
                }
                assert(tail_start(p, windows) == start);
            }
            let mut segment: Vec<char> = Vec::new();
            let mut i: usize = start;
            while i < end
                invariant
                    start <= i <= end <= cs.len(),
                    cs@ == path@,
                    segment@ == path@.subrange(start as int, i as int),
                decreases end - i,
            {
                segment.push(cs[i]);
                i = i + 1;
                assert(path@.subrange(start as int, i as int) == path@.subrange(start as int, i - 1).push(path@[i - 1]));
            }
            assert(p.subrange(start as int, p.len() as int) == segment@);
            if segment.len() == 1 && segment[0] == '.' {
                assert(segment@ =~= seq!['.']);
                assert(p.subrange(0, start as int) == path@.take(start as int));
                end = start;
            } else if segment.len() == 2 && segment[0] == '.' && segment[1] == '.' {
                assert(segment@ =~= seq!['.', '.']);
                return None;
            } else {
                assert(segment@ != seq!['.']);
                assert(segment@ != seq!['.', '.']);
                return Some(segment);
            }
        }
    }
}

// ------------------------------------------------------------------
// Extracting the checksum list and the CLI
// ------------------------------------------------------------------

/// The entry of the npm package that holds the checksums.
pub open spec fn is_checksums_entry(path: Seq<char>) -> bool {
    replace_all(path, "\\"@, "/"@) == "package/checksums.txt"@
}

/// The first entry path satisfying `is_checksums_entry`, or the count.
pub open spec fn checksums_index(paths: Seq<Seq<char>>) -> nat
    decreases paths.len(),
{
    if paths.len() == 0 {
        0
    } else if is_checksums_entry(paths[0]) {
        0
    } else {
        checksums_index(paths.drop_first()) + 1
    }
}

/// What reading `checksums.txt` from the npm package gives: its text, or
/// the error met first.
pub open spec fn checksums_in(package: Seq<u8>) -> Result<Seq<char>, Seq<char>> {
    let (paths, error) = tar_gz_listing(package);
    let i = checksums_index(paths);
    if i < paths.len() {
        match tar_gz_entry(package, i, MAX_METADATA_BYTES as u64) {
            Some(Ok(bytes)) => match utf8_decoded(bytes) {
                Some(text) => Ok(text),
                None => Err("stream did not contain valid UTF-8"@),
            },
            Some(Err(e)) => Err(e),
            None => Err("飞书官方 npm 包缺少 checksums.txt"@),
        }
    } else {
        match error {
            Some(e) => Err(e),
            None => Err("飞书官方 npm 包缺少 checksums.txt"@),
        }
    }
}

/// The view of a result of text.
pub open spec fn text_result(r: Result<String, String>) -> Result<Seq<char>, Seq<char>> {
    match r {
        Ok(t) => Ok(t@),
        Err(e) => Err(e@),
    }
}

proof fn lemma_index_step<A>(all: Seq<A>, i: int)
    requires
        0 <= i < all.len(),
    ensures
        all.skip(i).drop_first() == all.skip(i + 1),
        all.skip(i)[0] == all[i],
{
    assert(all.skip(i).drop_first() =~= all.skip(i + 1));
}

/// The index of the first entry path that names the checksum list, or the
/// number of paths when none does.
pub fn checksums_entry_index(paths: &Vec<String>) -> (r: usize)
    ensures
        r == checksums_index(texts_of(paths@)),
        r <= paths.len(),
{
    let ghost all = texts_of(paths@);
    let mut i: usize = 0;
    assert(all.skip(0) == all);
    proof {
        reveal_strlit("\\");
    }
    while i < paths.len()
        invariant
            i <= paths.len(),
            all == texts_of(paths@),
            checksums_index(all) == checksums_index(all.skip(i as int)) + i,
        decreases paths.len() - i,
    {
        proof {
            lemma_index_step(all, i as int);
            reveal_strlit("\\");
        }
        let normalized = replace_str(paths[i].as_str(), "\\", "/");
        if str_eq(normalized.as_str(), "package/checksums.txt") {
            return i;
        }
        i = i + 1;
    }
    assert(all.skip(paths.len() as int) =~= Seq::<Seq<char>>::empty());
    i
}

/// The official checksum list inside the npm package of the CLI.
pub fn extract_checksums(package: &[u8]) -> (r: Result<String, String>)
    ensures
        text_result(r) == checksums_in(package@),
{
    let (paths, error) = list_tar_gz(package);
    let i = checksums_entry_index(&paths);
    if i < paths.len() {
        let bytes = match read_tar_gz_entry(package, i, MAX_METADATA_BYTES as u64) {
            Some(Ok(b)) => b,
            Some(Err(e)) => return Err(e),
            None => return Err(crate::text::owned("飞书官方 npm 包缺少 checksums.txt")),
        };
        return match decode_utf8(bytes.as_slice()) {
            Some(text) => Ok(text),
            None => Err(crate::text::owned("stream did not contain valid UTF-8")),
        };
    }
    match error {
        Some(e) => Err(e),
        None => Err(crate::text::owned("飞书官方 npm 包缺少 checksums.txt")),
    }
}

/// The smallest CLI executable accepted, in bytes.
pub const MIN_CLI_BYTES: usize = 1048576;

/// Whether an entry path names the CLI executable.
pub open spec fn is_cli_entry(path: Seq<char>, windows: bool) -> bool {
    file_name_of(path, windows) == Some(cli_binary_spec(windows))
}

/// The first entry path naming the CLI executable, or the count.
pub open spec fn cli_index(paths: Seq<Seq<char>>, windows: bool) -> nat
    decreases paths.len(),
{
    if paths.len() == 0 {
        0
    } else if is_cli_entry(paths[0], windows) {
        0
    } else {
        cli_index(paths.drop_first(), windows) + 1
    }
}

/// The executable found in a listing: the bytes of the first entry naming
/// it, nothing when there is none, or the error met first.
pub open spec fn found_binary(
    paths: Seq<Seq<char>>,
    error: Option<Seq<char>>,
    windows: bool,
    read: spec_fn(nat) -> Result<Seq<u8>, Seq<char>>,
) -> Result<Seq<u8>, Seq<char>> {
    let i = cli_index(paths, windows);
    if i < paths.len() {
        read(i)
    } else {
        match error {
            Some(e) => Err(e),
            None => Ok(Seq::empty()),
        }
    }
}

/// What extracting the executable from a release archive gives, before
/// its size is checked.
pub open spec fn binary_in(archive_name: Seq<char>, archive: Seq<u8>, windows: bool) -> Result<Seq<u8>, Seq<char>> {
    if ends_with(archive_name, ".zip"@) {
        match zip_listing(archive) {
            Ok((names, error)) => found_binary(names, error, windows, |i: nat| zip_entry(archive, i, MAX_ARCHIVE_BYTES as u64)),
            Err(e) => Err(e),
        }
    } else if ends_with(archive_name, ".tar.gz"@) {
        let (paths, error) = tar_gz_listing(archive);
        found_binary(
            paths,
            error,
            windows,
            |i: nat|
                match tar_gz_entry(archive, i, MAX_ARCHIVE_BYTES as u64) {
                    Some(r) => r,
                    None => Ok(Seq::empty()),
                },
        )
    } else {
        Err("不支持的飞书 CLI 压缩格式"@)
    }
}

/// The executable of a release archive: an error when extraction fails or
/// the executable is missing or smaller than `MIN_CLI_BYTES`.
pub open spec fn cli_binary_in(archive_name: Seq<char>, archive: Seq<u8>, windows: bool) -> Result<Seq<u8>, Seq<char>> {
    match binary_in(archive_name, archive, windows) {
        Ok(bytes) => if bytes.len() < MIN_CLI_BYTES {
            Err("飞书 CLI 压缩包中没有有效的可执行文件"@)
        } else {
            Ok(bytes)
        },
        Err(e) => Err(e),
    }
}

/// The index of the first entry path that names the CLI executable, or the
/// number of paths when none does.
pub fn cli_entry_index(paths: &Vec<String>, windows: bool) -> (r: usize)
    ensures
        r == cli_index(texts_of(paths@), windows),
        r <= paths.len(),
{
    let ghost all = texts_of(paths@);
    let wanted = chars_of(cli_binary_name(windows));
    let mut i: usize = 0;
    assert(all.skip(0) == all);
    while i < paths.len()
        invariant
            i <= paths.len(),
            all == texts_of(paths@),
            wanted@ == cli_binary_spec(windows),
            cli_index(all, windows) == cli_index(all.skip(i as int), windows) + i,
        decreases paths.len() - i,
    {
        proof {
            lemma_index_step(all, i as int);
        }
        let hit = match path_file_name(paths[i].as_str(), windows) {
            Some(name) => crate::text::chars_eq(name.as_slice(), wanted.as_slice()),
            None => false,
        };
        if hit {
            return i;
        }
        i = i + 1;
    }
    assert(all.skip(paths.len() as int) =~= Seq::<Seq<char>>::empty());
    i
}

/// The CLI executable inside a release archive (`.zip` or `.tar.gz`).
pub fn extract_cli_binary(archive_name: &str, archive: &[u8], windows: bool) -> (r: Result<Vec<u8>, String>)
    ensures
        bytes_result(r) == cli_binary_in(archive_name@, archive@, windows),
{
    let output: Vec<u8> = if str_ends_with(archive_name, ".zip") {
        let (names, error) = match list_zip(archive) {
            Ok(listing) => listing,
            Err(e) => return Err(e),
        };
        let i = cli_entry_index(&names, windows);
        if i < names.len() {
            match read_zip_entry(archive, i, MAX_ARCHIVE_BYTES as u64) {
                Ok(b) => b,
                Err(e) => return Err(e),
            }
        } else {
            match error {
                Some(e) => return Err(e),
                None => Vec::new(),
            }
        }
    } else if str_ends_with(archive_name, ".tar.gz") {
        let (paths, error) = list_tar_gz(archive);
        let i = cli_entry_index(&paths, windows);
        if i < paths.len() {
            match read_tar_gz_entry(archive, i, MAX_ARCHIVE_BYTES as u64) {
                Some(Ok(b)) => b,
                Some(Err(e)) => return Err(e),
                None => Vec::new(),
            }
        } else {
            match error {
                Some(e) => return Err(e),
                None => Vec::new(),
            }
        }
    } else {
        return Err(crate::text::owned("不支持的飞书 CLI 压缩格式"));
    };
    checked_cli_binary(output)
}

/// The extracted executable, refused when it is smaller than `MIN_CLI_BYTES`
/// (which an archive without the executable gives too).
pub fn checked_cli_binary(bytes: Vec<u8>) -> (r: Result<Vec<u8>, String>)
    ensures
        bytes@.len() < MIN_CLI_BYTES ==> (r matches Err(e) && e@ == "飞书 CLI 压缩包中没有有效的可执行文件"@),
        bytes@.len() >= MIN_CLI_BYTES ==> (r matches Ok(b) && b@ == bytes@),
{
    if bytes.len() < MIN_CLI_BYTES {
        return Err(crate::text::owned("飞书 CLI 压缩包中没有有效的可执行文件"));
    }
    Ok(bytes)
}

} // verus!
