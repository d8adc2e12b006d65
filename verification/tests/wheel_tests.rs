use std::io::Read;

use base64::Engine;
use module_writer::exclude::ExclusionFilter;
use module_writer::metadata::PackageMetadata;
use module_writer::wheel::WheelWriter;
use module_writer::writer::ModuleWriter;
use sha2::Digest;
use tempfile::TempDir;

fn meta(name: &str, version: &str) -> PackageMetadata {
    let mut m = PackageMetadata::default();
    m.name = name.to_owned();
    m.version = version.to_owned();
    m.metadata_file_contents = "Metadata-Version: 2.1\nName: pkg\nVersion: 1.0.0\n".to_owned();
    m
}

fn read_wheel(path: &str) -> Vec<(String, Vec<u8>)> {
    let file = fs_err::File::open(path).unwrap();
    let mut archive = zip::ZipArchive::new(file).unwrap();
    let mut out = Vec::new();
    for i in 0..archive.len() {
        let mut entry = archive.by_index(i).unwrap();
        let mut bytes = Vec::new();
        entry.read_to_end(&mut bytes).unwrap();
        out.push((entry.name().to_owned(), bytes));
    }
    out
}

#[test]
fn wheel_name_and_tag_file() {
    // Tags ["t1"], distribution pkg, version 1.0.0: the wheel is named
    // pkg-1.0.0-t1.whl and its WHEEL entry carries the tag line.
    let tmp_dir = TempDir::new().unwrap();
    let dir = tmp_dir.path().to_str().unwrap();
    let metadata = meta("pkg", "1.0.0");
    let tags = vec!["t1".to_owned()];
    let writer = WheelWriter::new("t1", dir, &metadata, &tags, None, false).unwrap();
    let path = writer.finish().unwrap();
    assert_eq!(path, format!("{}/pkg-1.0.0-t1.whl", dir));

    let entries = read_wheel(&path);
    let wheel_entry = entries
        .iter()
        .find(|(name, _)| name == "pkg-1.0.0.dist-info/WHEEL")
        .expect("WHEEL entry missing");
    let text = String::from_utf8(wheel_entry.1.clone()).unwrap();
    assert!(text.contains("Tag: t1\n"));
    assert_eq!(
        text,
        "Wheel-Version: 1.0\nGenerator: module_writer (0.1.0)\nRoot-Is-Purelib: false\nTag: t1\n"
    );
    // The METADATA entry precedes the WHEEL entry, and without entry points no
    // entry_points.txt entry exists at all.
    let names: Vec<&str> = entries.iter().map(|(name, _)| name.as_str()).collect();
    let metadata_at = names.iter().position(|n| *n == "pkg-1.0.0.dist-info/METADATA").unwrap();
    let wheel_at = names.iter().position(|n| *n == "pkg-1.0.0.dist-info/WHEEL").unwrap();
    assert!(metadata_at < wheel_at);
    assert!(!names.contains(&"pkg-1.0.0.dist-info/entry_points.txt"));
}

#[test]
fn wheel_record_hashes_round_trip() {
    // Recomputing each recorded hash over the bytes actually stored in the
    // archive reproduces the ledger exactly, with the self-record line last.
    let tmp_dir = TempDir::new().unwrap();
    let dir = tmp_dir.path().to_str().unwrap();
    let metadata = meta("pkg", "1.0.0");
    let tags = vec!["py3-none-any".to_owned()];
    let mut writer = WheelWriter::new("py3-none-any", dir, &metadata, &tags, None, false).unwrap();
    writer.add_bytes("pkg/__init__.py", b"print('hi')\n").unwrap();
    writer
        .add_bytes_with_permissions("pkg-1.0.0.data/scripts/tool", b"#!/bin/sh\n", 0o755)
        .unwrap();
    let path = writer.finish().unwrap();

    let entries = read_wheel(&path);
    let record = entries
        .iter()
        .find(|(name, _)| name == "pkg-1.0.0.dist-info/RECORD")
        .expect("RECORD entry missing");
    let record_text = String::from_utf8(record.1.clone()).unwrap();
    let lines: Vec<&str> = record_text.lines().collect();
    // One line per non-RECORD entry, in write order, then the self line.
    assert_eq!(lines.len(), entries.len());
    assert_eq!(*lines.last().unwrap(), "pkg-1.0.0.dist-info/RECORD,,");
    for (name, bytes) in entries.iter() {
        if name == "pkg-1.0.0.dist-info/RECORD" {
            continue;
        }
        let digest = sha2::Sha256::digest(bytes);
        let hash = base64::engine::general_purpose::URL_SAFE_NO_PAD.encode(digest);
        let expected = format!("{},sha256={},{}", name, hash, bytes.len());
        assert!(
            lines.contains(&expected.as_str()),
            "ledger line missing: {}",
            expected
        );
    }
    // Write order: the metadata directory first, then the two added files.
    assert!(lines[0].starts_with("pkg-1.0.0.dist-info/METADATA,"));
    assert!(lines[1].starts_with("pkg-1.0.0.dist-info/WHEEL,"));
    assert!(lines[2].starts_with("pkg/__init__.py,"));
    assert!(lines[3].starts_with("pkg-1.0.0.data/scripts/tool,"));
}

#[test]
fn wheel_excluded_paths_stay_out() {
    // No excluded path appears in the archive or its ledger, however often it
    // is offered.
    let tmp_dir = TempDir::new().unwrap();
    let dir = tmp_dir.path().to_str().unwrap();
    let rules = vec!["secret*".to_owned()];
    let excludes = ExclusionFilter::new(dir, &rules).unwrap();
    let metadata = meta("pkg", "1.0.0");
    let tags = vec!["t1".to_owned()];
    let mut writer = WheelWriter::new("t1", dir, &metadata, &tags, Some(excludes), false).unwrap();
    for _ in 0..3 {
        writer.add_bytes("secret.txt", b"hidden").unwrap();
    }
    writer.add_bytes("kept.txt", b"visible").unwrap();
    let path = writer.finish().unwrap();
    let entries = read_wheel(&path);
    assert!(entries.iter().all(|(name, _)| !name.starts_with("secret")));
    let record = entries
        .iter()
        .find(|(name, _)| name == "pkg-1.0.0.dist-info/RECORD")
        .unwrap();
    let record_text = String::from_utf8(record.1.clone()).unwrap();
    assert!(!record_text.contains("secret"));
    assert!(record_text.contains("kept.txt,"));
}

#[test]
fn wheel_entry_points_and_license_files() {
    let tmp_dir = TempDir::new().unwrap();
    let dir = tmp_dir.path().to_str().unwrap();
    let license_path = format!("{}/LICENSE", dir);
    fs_err::write(&license_path, b"license text").unwrap();
    let mut metadata = meta("pkg", "1.0.0");
    metadata.scripts = vec![("tool".to_owned(), "pkg:main".to_owned())];
    metadata.entry_points = vec![(
        "custom.group".to_owned(),
        vec![("k".to_owned(), "v".to_owned())],
    )];
    metadata.license_files = vec![license_path];
    let tags = vec!["t1".to_owned()];
    let writer = WheelWriter::new("t1", dir, &metadata, &tags, None, false).unwrap();
    let path = writer.finish().unwrap();
    let entries = read_wheel(&path);
    let ep = entries
        .iter()
        .find(|(name, _)| name == "pkg-1.0.0.dist-info/entry_points.txt")
        .expect("entry_points.txt missing");
    assert_eq!(
        String::from_utf8(ep.1.clone()).unwrap(),
        "[console_scripts]\ntool=pkg:main\n[custom.group]\nk=v\n"
    );
    let lic = entries
        .iter()
        .find(|(name, _)| name == "pkg-1.0.0.dist-info/license_files/LICENSE")
        .expect("license copy missing");
    assert_eq!(lic.1, b"license text");
}

#[test]
fn add_pth_points_at_the_source_tree_parent() {
    let tmp_dir = TempDir::new().unwrap();
    let dir = tmp_dir.path().to_str().unwrap();
    let python_module = format!("{}/proj/pkg", dir);
    fs_err::create_dir_all(&python_module).unwrap();
    let metadata = meta("pkg", "1.0.0");
    let tags = vec!["t1".to_owned()];
    let mut writer = WheelWriter::new("t1", dir, &metadata, &tags, None, false).unwrap();
    let layout = module_writer::metadata::ProjectLayout {
        python_module: Some(python_module),
        rust_module: format!("{}/proj/pkg", dir),
        extension_name: "pkg".to_owned(),
    };
    writer.add_pth(&layout, &metadata).unwrap();
    let path = writer.finish().unwrap();
    let entries = read_wheel(&path);
    let pth = entries.iter().find(|(name, _)| name == "pkg.pth").expect("pth entry missing");
    let content = String::from_utf8(pth.1.clone()).unwrap();
    assert!(content.ends_with("/proj"), "unexpected pth content: {}", content);
}

#[test]
fn wheel_missing_license_file_name_is_fatal() {
    let tmp_dir = TempDir::new().unwrap();
    let dir = tmp_dir.path().to_str().unwrap();
    let mut metadata = meta("pkg", "1.0.0");
    metadata.license_files = vec!["/".to_owned()];
    let tags = vec!["t1".to_owned()];
    let result = WheelWriter::new("t1", dir, &metadata, &tags, None, false);
    match result {
        Err(module_writer::ArchiveError::Layout { message }) => {
            assert!(message.starts_with("missing file name for license file "));
        },
        _ => panic!("expected a layout error"),
    }
}
