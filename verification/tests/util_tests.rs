use module_writer::dist_info::entry_points_txt;
use module_writer::dist_info::wheel_file;
use module_writer::hashing::content_hash;
use module_writer::layout::bindings_init_file;
use module_writer::layout::cffi_init_file;
use module_writer::layout::data_dir_name_allowed;
use module_writer::layout::so_filename;
use module_writer::metadata::PackageMetadata;
use module_writer::path_writer::PathWriter;
use module_writer::record::RecordEntry;
use module_writer::record::render_record;
use module_writer::strutil::after_last_exec;
use module_writer::strutil::before_last_exec;
use module_writer::strutil::ends_with;
use module_writer::strutil::last_line_exec;
use module_writer::strutil::path_join;
use module_writer::strutil::replace_char;
use module_writer::strutil::strip_prefix_exec;
use module_writer::strutil::trim_exec;
use module_writer::strutil::u64_to_dec_string;
use module_writer::writer::ModuleWriter;
use tempfile::TempDir;

#[test]
fn decimal_rendering() {
    assert_eq!(u64_to_dec_string(0), "0");
    assert_eq!(u64_to_dec_string(7), "7");
    assert_eq!(u64_to_dec_string(10), "10");
    assert_eq!(u64_to_dec_string(90210), "90210");
    assert_eq!(u64_to_dec_string(u64::MAX), "18446744073709551615");
}

#[test]
fn string_helpers() {
    assert_eq!(replace_char("a\\b\\c", '\\', '/'), "a/b/c");
    assert_eq!(replace_char("wasm-tool", '-', '_'), "wasm_tool");
    assert_eq!(after_last_exec("a/b/c.txt", '/'), "c.txt");
    assert_eq!(after_last_exec("plain", '/'), "plain");
    assert_eq!(before_last_exec("a/b/c.txt", '/'), "a/b");
    assert_eq!(before_last_exec("plain", '/'), "");
    assert_eq!(path_join("a/b", "c"), "a/b/c");
    assert!(ends_with("module.so", ".so"));
    assert!(!ends_with("module.rs", ".so"));
    assert!(!ends_with("so", ".so"));
    assert_eq!(strip_prefix_exec("root/tree/file", "root/"), Some("tree/file".to_owned()));
    assert_eq!(strip_prefix_exec("elsewhere/file", "root/"), None);
}

#[test]
fn last_line_matches_line_semantics() {
    assert_eq!(last_line_exec(""), "");
    assert_eq!(last_line_exec("one"), "one");
    assert_eq!(last_line_exec("one\n"), "one");
    assert_eq!(last_line_exec("one\r\n"), "one");
    assert_eq!(last_line_exec("a\nb\nc"), "c");
    assert_eq!(last_line_exec("a\nb\nc\n"), "c");
    assert_eq!(last_line_exec("a\r\nModuleNotFoundError: No module named 'cffi'\n"),
        "ModuleNotFoundError: No module named 'cffi'");
}

#[test]
fn trim_strips_plain_whitespace() {
    assert_eq!(trim_exec("True\n"), "True");
    assert_eq!(trim_exec("  False \r\n"), "False");
    assert_eq!(trim_exec(""), "");
    assert_eq!(trim_exec(" \t\r\n"), "");
    assert_eq!(trim_exec("a b"), "a b");
}

#[test]
fn content_hash_is_urlsafe_unpadded_sha256() {
    // The SHA-256 of the empty input, in unpadded URL-safe base64: the
    // standard-alphabet rendering ends with +/ characters replaced by -_ and
    // no '=' padding.
    assert_eq!(content_hash(b""), "47DEQpj8HBSa-_TImW-5JCeuQeRkm5NMpJWZG3hSuFU");
    assert_eq!(content_hash(b"abc"), "ungWv48Bz-pBQUDeXa4iI7ADYaOWF3qctBD_YfIAFa0");
}

#[test]
fn wheel_file_lists_tags_in_order() {
    let tags = vec!["t1".to_owned(), "t2".to_owned()];
    assert_eq!(
        wheel_file(&tags),
        "Wheel-Version: 1.0\nGenerator: module_writer (0.1.0)\nRoot-Is-Purelib: false\nTag: t1\nTag: t2\n"
    );
}

#[test]
fn entry_points_keep_caller_order() {
    // An explicitly ordered list, not a hash map: the output order is the
    // caller's order, reproducibly.
    let entries = vec![
        ("zeta".to_owned(), "pkg:z".to_owned()),
        ("alpha".to_owned(), "pkg:a".to_owned()),
    ];
    assert_eq!(
        entry_points_txt("console_scripts", &entries),
        "[console_scripts]\nzeta=pkg:z\nalpha=pkg:a\n"
    );
}

#[test]
fn record_format_is_exact() {
    let records = vec![
        RecordEntry { path: "pkg/a.py".to_owned(), hash: "HASH".to_owned(), len: 11 },
        RecordEntry { path: "pkg/b.py".to_owned(), hash: "HSH2".to_owned(), len: 0 },
    ];
    assert_eq!(
        render_record(&records, "pkg-1.0.0.dist-info/RECORD"),
        "pkg/a.py,sha256=HASH,11\npkg/b.py,sha256=HSH2,0\npkg-1.0.0.dist-info/RECORD,,\n"
    );
}

#[test]
fn generated_file_contents() {
    assert!(cffi_init_file().contains("lib = ffi.dlopen"));
    let init = bindings_init_file("mymod");
    assert_eq!(
        init,
        "from .mymod import *\n\n__doc__ = mymod.__doc__\nif hasattr(mymod, \"__all__\"):\n    __all__ = mymod.__all__"
    );
}

#[test]
fn so_filename_selects_the_right_name() {
    let interp = "ext.cpython-312-x86_64-linux-gnu.so".to_owned();
    assert_eq!(so_filename("ext", Some(&interp), true), interp);
    assert_eq!(so_filename("ext", None, true), "ext.abi3.so");
    assert_eq!(so_filename("ext", None, false), "ext.pyd");
}

#[test]
fn data_dir_names_are_validated() {
    for name in ["data", "scripts", "headers", "purelib", "platlib"] {
        assert!(data_dir_name_allowed(name));
    }
    assert!(!data_dir_name_allowed("bin"));
    assert!(!data_dir_name_allowed(""));
}

#[test]
fn path_writer_writes_files_and_record() {
    let tmp_dir = TempDir::new().unwrap();
    let dir = tmp_dir.path().to_str().unwrap();
    let mut metadata = PackageMetadata::default();
    metadata.name = "pkg".to_owned();
    metadata.version = "1.0.0".to_owned();

    let mut writer = PathWriter::from_path(dir);
    writer.add_directory("pkg").unwrap();
    writer.add_directory("pkg-1.0.0.dist-info").unwrap();
    writer.add_bytes("pkg/__init__.py", b"x = 1\n").unwrap();
    let written = fs_err::read(format!("{}/pkg/__init__.py", dir)).unwrap();
    assert_eq!(written, b"x = 1\n");

    let expected_record = writer.record_contents(&metadata);
    writer.write_record(&metadata).unwrap();
    let record_path = format!("{}/pkg-1.0.0.dist-info/RECORD", dir);
    let on_disk = fs_err::read_to_string(&record_path).unwrap();
    assert_eq!(on_disk, expected_record);
    assert!(on_disk.starts_with("pkg/__init__.py,sha256="));
    // The self line names the record file by its archive-relative path.
    assert!(on_disk.ends_with("pkg-1.0.0.dist-info/RECORD,,\n"));
}

#[test]
fn path_writer_delete_dir_tolerates_absence() {
    let tmp_dir = TempDir::new().unwrap();
    let dir = tmp_dir.path().to_str().unwrap();
    let writer = PathWriter::from_path(dir);
    writer.delete_dir("not-there").unwrap();
    let mut writer = PathWriter::from_path(dir);
    writer.add_directory("old-install").unwrap();
    writer.add_bytes("old-install/stale.py", b"").unwrap();
    writer.delete_dir("old-install").unwrap();
    assert!(!std::path::Path::new(&format!("{}/old-install", dir)).exists());
}

#[test]
fn venv_writer_targets_site_packages() {
    let tmp_dir = TempDir::new().unwrap();
    let dir = tmp_dir.path().to_str().unwrap();
    fs_err::create_dir_all(format!("{}/lib/python3.12/site-packages", dir)).unwrap();
    let mut writer = PathWriter::venv(dir, "lib/python3.12/site-packages");
    writer.add_bytes("pkg.pth", b"/src/pkg").unwrap();
    let written = fs_err::read(format!("{}/lib/python3.12/site-packages/pkg.pth", dir)).unwrap();
    assert_eq!(written, b"/src/pkg");
}
