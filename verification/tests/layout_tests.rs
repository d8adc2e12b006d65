use module_writer::layout::add_data;
use module_writer::layout::write_bin;
use module_writer::layout::write_bindings_module;
use module_writer::layout::write_cffi_module;
use module_writer::layout::find_type_stub;
use module_writer::layout::write_python_part;
use module_writer::layout::write_wasm_launcher;
use module_writer::metadata::PackageMetadata;
use module_writer::metadata::ProjectLayout;
use module_writer::path_writer::PathWriter;
use module_writer::writer::ModuleWriter;
use tempfile::TempDir;

fn meta(name: &str, version: &str) -> PackageMetadata {
    let mut m = PackageMetadata::default();
    m.name = name.to_owned();
    m.version = version.to_owned();
    m
}

#[test]
fn write_bin_places_the_binary_under_scripts() {
    let tmp_dir = TempDir::new().unwrap();
    let dir = tmp_dir.path().to_str().unwrap();
    let artifact = format!("{}/tool-binary", dir);
    fs_err::write(&artifact, b"\x7fELF...").unwrap();
    let out = format!("{}/out", dir);
    let mut writer = PathWriter::from_path(&out);
    let metadata = meta("pkg", "1.0.0");
    write_bin(&mut writer, &artifact, &metadata, "tool").unwrap();
    let placed = fs_err::read(format!("{}/pkg-1.0.0.data/scripts/tool", out)).unwrap();
    assert_eq!(placed, b"\x7fELF...");
}

#[test]
fn wasm_launcher_is_generated_beside_the_binary() {
    let tmp_dir = TempDir::new().unwrap();
    let dir = tmp_dir.path().to_str().unwrap();
    let out = format!("{}/out", dir);
    let mut writer = PathWriter::from_path(&out);
    writer.add_directory("pkg").unwrap();
    let metadata = meta("pkg", "1.0.0");
    write_wasm_launcher(&mut writer, &metadata, "wasm-tool").unwrap();
    let script = fs_err::read_to_string(format!("{}/pkg/wasm_tool.py", out)).unwrap();
    assert!(script.contains("joinpath(\"wasm-tool\")"));
    assert!(script.contains("wasi.preopen_dir(\".\", \".\")"));
    assert!(script.contains("wasi.inherit_argv()"));
}

#[test]
fn python_part_copies_sources_and_skips_native_libraries() {
    let tmp_dir = TempDir::new().unwrap();
    let dir = tmp_dir.path().to_str().unwrap();
    let tree = format!("{}/proj/pkg", dir);
    fs_err::create_dir_all(format!("{}/sub", tree)).unwrap();
    fs_err::write(format!("{}/__init__.py", tree), b"init").unwrap();
    fs_err::write(format!("{}/sub/mod.py", tree), b"mod").unwrap();
    fs_err::write(format!("{}/stale.so", tree), b"stale").unwrap();

    let out = format!("{}/out", dir);
    let mut writer = PathWriter::from_path(&out);
    write_python_part(&mut writer, &tree, &Vec::new()).unwrap();
    assert_eq!(fs_err::read(format!("{}/pkg/__init__.py", out)).unwrap(), b"init");
    assert_eq!(fs_err::read(format!("{}/pkg/sub/mod.py", out)).unwrap(), b"mod");
    assert!(!std::path::Path::new(&format!("{}/pkg/stale.so", out)).exists());
}

#[test]
fn python_part_honors_include_patterns() {
    let tmp_dir = TempDir::new().unwrap();
    let dir = tmp_dir.path().to_str().unwrap();
    let tree = format!("{}/proj/pkg", dir);
    fs_err::create_dir_all(&tree).unwrap();
    fs_err::write(format!("{}/__init__.py", tree), b"init").unwrap();
    fs_err::write(format!("{}/proj/extra.txt", dir), b"extra").unwrap();

    let out = format!("{}/out", dir);
    let mut writer = PathWriter::from_path(&out);
    let patterns = vec!["extra.*".to_owned()];
    write_python_part(&mut writer, &tree, &patterns).unwrap();
    assert_eq!(fs_err::read(format!("{}/extra.txt", out)).unwrap(), b"extra");
}

#[test]
fn bindings_module_for_a_bare_extension() {
    let tmp_dir = TempDir::new().unwrap();
    let dir = tmp_dir.path().to_str().unwrap();
    let rust_module = format!("{}/src", dir);
    fs_err::create_dir_all(&rust_module).unwrap();
    let artifact = format!("{}/built.so", dir);
    fs_err::write(&artifact, b"binary").unwrap();
    fs_err::write(format!("{}/mymod.pyi", rust_module), b"stub").unwrap();

    let out = format!("{}/out", dir);
    let mut writer = PathWriter::from_path(&out);
    let layout = ProjectLayout {
        python_module: None,
        rust_module,
        extension_name: "mymod".to_owned(),
    };
    let stub = find_type_stub(&layout.rust_module, "mymod");
    assert!(stub.is_some());
    write_bindings_module(
        &mut writer,
        &layout,
        "mymod",
        &artifact,
        None,
        true,
        false,
        &Vec::new(),
        stub.as_ref(),
    )
    .unwrap();
    let init = fs_err::read_to_string(format!("{}/mymod/__init__.py", out)).unwrap();
    assert!(init.starts_with("from .mymod import *"));
    assert_eq!(fs_err::read(format!("{}/mymod/__init__.pyi", out)).unwrap(), b"stub");
    assert_eq!(fs_err::read(format!("{}/mymod/py.typed", out)).unwrap(), b"");
    assert_eq!(fs_err::read(format!("{}/mymod/mymod.abi3.so", out)).unwrap(), b"binary");
}

#[test]
fn bindings_module_editable_copies_into_the_source_tree() {
    let tmp_dir = TempDir::new().unwrap();
    let dir = tmp_dir.path().to_str().unwrap();
    let python_module = format!("{}/proj/pkg", dir);
    let rust_module = format!("{}/proj/pkg", dir);
    fs_err::create_dir_all(&python_module).unwrap();
    let artifact = format!("{}/built.so", dir);
    fs_err::write(&artifact, b"binary").unwrap();

    let out = format!("{}/out", dir);
    let mut writer = PathWriter::from_path(&out);
    let layout = ProjectLayout {
        python_module: Some(python_module.clone()),
        rust_module,
        extension_name: "native".to_owned(),
    };
    let lib_name = "native.cpython.so".to_owned();
    write_bindings_module(
        &mut writer,
        &layout,
        "native",
        &artifact,
        Some(&lib_name),
        true,
        true,
        &Vec::new(),
        None,
    )
    .unwrap();
    // The artifact lands in the source tree; the archive itself stays empty.
    assert_eq!(
        fs_err::read(format!("{}/native.cpython.so", python_module)).unwrap(),
        b"binary"
    );
    assert!(!std::path::Path::new(&out).exists());
}

#[test]
fn cffi_module_for_a_bare_extension() {
    let tmp_dir = TempDir::new().unwrap();
    let dir = tmp_dir.path().to_str().unwrap();
    let rust_module = format!("{}/src", dir);
    fs_err::create_dir_all(&rust_module).unwrap();
    let artifact = format!("{}/built.so", dir);
    fs_err::write(&artifact, b"binary").unwrap();

    let out = format!("{}/out", dir);
    let mut writer = PathWriter::from_path(&out);
    let layout = ProjectLayout {
        python_module: None,
        rust_module,
        extension_name: "mymod".to_owned(),
    };
    write_cffi_module(
        &mut writer,
        &layout,
        "mymod",
        &artifact,
        "# generated declarations",
        false,
        &Vec::new(),
        None,
    )
    .unwrap();
    let init = fs_err::read_to_string(format!("{}/mymod/__init__.py", out)).unwrap();
    assert!(init.contains("lib = ffi.dlopen"));
    assert_eq!(
        fs_err::read_to_string(format!("{}/mymod/ffi.py", out)).unwrap(),
        "# generated declarations"
    );
    assert_eq!(fs_err::read(format!("{}/mymod/native.so", out)).unwrap(), b"binary");
}

#[test]
fn add_data_copies_allowed_subdirectories_and_resolves_symlinks() {
    let tmp_dir = TempDir::new().unwrap();
    let dir = tmp_dir.path().to_str().unwrap();
    let data = format!("{}/pkg.data", dir);
    fs_err::create_dir_all(format!("{}/scripts", data)).unwrap();
    fs_err::write(format!("{}/scripts/run.sh", data), b"#!/bin/sh\n").unwrap();
    let real = format!("{}/generated.txt", dir);
    fs_err::write(&real, b"generated").unwrap();
    fs_err::os::unix::fs::symlink(&real, format!("{}/scripts/linked.txt", data)).unwrap();

    let out = format!("{}/out", dir);
    let mut writer = PathWriter::from_path(&out);
    add_data(&mut writer, Some(&data)).unwrap();
    assert_eq!(
        fs_err::read(format!("{}/pkg.data/scripts/run.sh", out)).unwrap(),
        b"#!/bin/sh\n"
    );
    // The symlink's target content is copied, never the link itself.
    let copied = format!("{}/pkg.data/scripts/linked.txt", out);
    assert!(!std::path::Path::new(&copied).is_symlink());
    assert_eq!(fs_err::read(&copied).unwrap(), b"generated");
}

#[test]
fn add_data_rejects_unknown_subdirectories() {
    let tmp_dir = TempDir::new().unwrap();
    let dir = tmp_dir.path().to_str().unwrap();
    let data = format!("{}/pkg.data", dir);
    fs_err::create_dir_all(format!("{}/unknown", data)).unwrap();
    let out = format!("{}/out", dir);
    let mut writer = PathWriter::from_path(&out);
    match add_data(&mut writer, Some(&data)) {
        Err(module_writer::ArchiveError::Layout { message }) => {
            assert!(message.starts_with("invalid data directory entry "));
        },
        _ => panic!("expected a layout error"),
    }
}
