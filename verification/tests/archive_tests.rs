use sticker_relay::archive::{
    checked_cli_binary, checksums_entry_index, cli_entry_index, extract_checksums, extract_cli_binary,
    path_file_name,
};

fn tar_gz(entries: &[(&str, &[u8])]) -> Vec<u8> {
    let encoder = flate2::write::GzEncoder::new(Vec::new(), flate2::Compression::default());
    let mut builder = tar::Builder::new(encoder);
    for (path, data) in entries {
        let mut header = tar::Header::new_gnu();
        header.set_size(data.len() as u64);
        header.set_mode(0o755);
        header.set_cksum();
        builder.append_data(&mut header, path, *data).expect("append entry");
    }
    builder.into_inner().expect("finish tar").finish().expect("finish gzip")
}

fn zip(entries: &[(&str, &[u8])]) -> Vec<u8> {
    let mut writer = zip::ZipWriter::new(std::io::Cursor::new(Vec::new()));
    for (name, data) in entries {
        let options = zip::write::SimpleFileOptions::default()
            .compression_method(zip::CompressionMethod::Stored);
        writer.start_file(*name, options).expect("start entry");
        std::io::Write::write_all(&mut writer, data).expect("write entry");
    }
    writer.finish().expect("finish zip").into_inner()
}

#[test]
fn reads_the_checksum_list_of_the_npm_package() {
    let package = tar_gz(&[
        ("package/README.md", b"readme"),
        ("package/checksums.txt", b"abc  lark-cli.zip\n"),
    ]);
    assert_eq!(
        extract_checksums(&package).expect("checksums"),
        "abc  lark-cli.zip\n"
    );
    let without = tar_gz(&[("package/README.md", b"readme")]);
    assert_eq!(
        extract_checksums(&without).expect_err("missing"),
        "飞书官方 npm 包缺少 checksums.txt"
    );
    let binary = tar_gz(&[("package/checksums.txt", &[0xff, 0xfe])]);
    assert_eq!(
        extract_checksums(&binary).expect_err("not text"),
        "stream did not contain valid UTF-8"
    );
}

#[test]
fn extracts_the_cli_from_release_archives() {
    let big = vec![7u8; 1024 * 1024];
    let archive = tar_gz(&[("lark-cli-1.0.90/README", b"x"), ("lark-cli-1.0.90/lark-cli", &big)]);
    assert_eq!(
        extract_cli_binary("lark-cli-1.0.90-darwin-arm64.tar.gz", &archive, false).expect("binary"),
        big
    );
    let archive = zip(&[("bin/lark-cli.exe", &big)]);
    assert_eq!(
        extract_cli_binary("lark-cli-1.0.90-windows-amd64.zip", &archive, true).expect("binary"),
        big
    );
    let small = zip(&[("lark-cli.exe", b"tiny")]);
    assert_eq!(
        extract_cli_binary("a.zip", &small, true).expect_err("too small"),
        "飞书 CLI 压缩包中没有有效的可执行文件"
    );
    assert_eq!(
        extract_cli_binary("a.rar", &small, true).expect_err("format"),
        "不支持的飞书 CLI 压缩格式"
    );
}

#[test]
fn names_the_final_path_component() {
    let name = |p: &str, w: bool| path_file_name(p, w).map(|c| c.into_iter().collect::<String>());
    assert_eq!(name("a/b/lark-cli", false).as_deref(), Some("lark-cli"));
    assert_eq!(name("a/b/", false).as_deref(), Some("b"));
    assert_eq!(name("a/b/.", false).as_deref(), Some("b"));
    assert_eq!(name("a/..", false), None);
    assert_eq!(name("/", false), None);
    assert_eq!(name("a\\b.exe", true).as_deref(), Some("b.exe"));
    assert_eq!(name("a\\b.exe", false).as_deref(), Some("a\\b.exe"));
}

#[test]
fn finds_the_entries_it_looks_for() {
    let paths: Vec<String> = vec!["package\\README.md".into(), "package\\checksums.txt".into()];
    assert_eq!(checksums_entry_index(&paths), 1);
    let none: Vec<String> = vec!["package/checksums.txt.bak".into()];
    assert_eq!(checksums_entry_index(&none), 1);
    let names: Vec<String> = vec!["dir/lark-cli.exe".into(), "bin/lark-cli".into(), "lark-cli".into()];
    assert_eq!(cli_entry_index(&names, false), 1);
    assert_eq!(cli_entry_index(&names, true), 0);
    let empty: Vec<String> = Vec::new();
    assert_eq!(cli_entry_index(&empty, false), 0);
}

#[test]
fn executables_under_a_mebibyte_are_refused() {
    assert_eq!(checked_cli_binary(vec![1u8; 1024 * 1024]).expect("large enough").len(), 1024 * 1024);
    assert_eq!(
        checked_cli_binary(vec![1u8; 1024 * 1024 - 1]).expect_err("too small"),
        "飞书 CLI 压缩包中没有有效的可执行文件"
    );
    assert_eq!(
        checked_cli_binary(Vec::new()).expect_err("empty"),
        "飞书 CLI 压缩包中没有有效的可执行文件"
    );
}

#[test]
fn entries_with_non_utf8_names_do_not_end_the_listing() {
    let encoder = flate2::write::GzEncoder::new(Vec::new(), flate2::Compression::default());
    let mut builder = tar::Builder::new(encoder);
    let mut odd = tar::Header::new_gnu();
    let name: &[u8] = b"package/\xff\xfe.bin";
    odd.as_old_mut().name[..name.len()].copy_from_slice(name);
    odd.set_size(1);
    odd.set_mode(0o644);
    odd.set_cksum();
    builder.append(&odd, &b"x"[..]).expect("append odd entry");
    let mut header = tar::Header::new_gnu();
    let list: &[u8] = b"abc  a.zip\n";
    header.set_size(list.len() as u64);
    header.set_mode(0o644);
    header.set_cksum();
    builder.append_data(&mut header, "package/checksums.txt", list).expect("append list");
    let package = builder.into_inner().expect("finish tar").finish().expect("finish gzip");
    assert_eq!(extract_checksums(&package).expect("checksums"), "abc  a.zip\n");
}
