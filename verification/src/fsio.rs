//! Trusted wrappers around the filesystem calls the backends and layout
//! strategies make. Every result depends on the state of the disk, so the
//! contracts promise nothing about the values that come back; the verified
//! callers state what holds whatever was returned.
use vstd::prelude::*;
use fs_err::os::unix::fs::OpenOptionsExt;
use normpath::PathExt;
use std::io::Write;

verus! {

/// What a walked directory entry is.
#[derive(PartialEq, Eq, Structural, Clone, Copy, Debug)]
pub enum EntryKind {
    Directory,
    RegularFile,
    Symlink,
    Other,
}

/// One entry met while walking a directory tree: its path and what it is.
pub struct WalkedEntry {
    pub path: String,
    pub kind: EntryKind,
}

/// Relies on fs_err's `create_dir_all`.
#[verifier::external_body]
pub fn create_dir_all(path: &str) -> (r: Result<(), String>)
{
    fs_err::create_dir_all(path).map_err(|e| e.to_string())
}

/// Relies on fs_err's `remove_dir_all`.
#[verifier::external_body]
pub fn remove_dir_all(path: &str) -> (r: Result<(), String>)
{
    fs_err::remove_dir_all(path).map_err(|e| e.to_string())
}

/// Relies on fs_err's `remove_file`.
#[verifier::external_body]
pub fn remove_file(path: &str) -> (r: Result<(), String>)
{
    fs_err::remove_file(path).map_err(|e| e.to_string())
}

/// Relies on fs_err's `copy`: copies the contents and permissions of one file
/// to another.
#[verifier::external_body]
pub fn copy_file(source: &str, target: &str) -> (r: Result<(), String>)
{
    match fs_err::copy(source, target) {
        Ok(_) => Ok(()),
        Err(e) => Err(e.to_string()),
    }
}

/// Relies on fs_err's `read`: hands back the file's bytes.
#[verifier::external_body]
pub fn read_file(path: &str) -> (r: Result<Vec<u8>, String>)
{
    fs_err::read(path).map_err(|e| e.to_string())
}

/// Relies on fs_err's `write`: creates the file and writes all the bytes.
#[verifier::external_body]
pub fn write_file(path: &str, bytes: &[u8]) -> (r: Result<(), String>)
{
    fs_err::write(path, bytes).map_err(|e| e.to_string())
}

/// Relies on fs_err's `OpenOptions` with its unix `mode` extension: creates or
/// truncates the file with the given POSIX permission bits and writes all the
/// bytes. Platforms without POSIX modes would create the file with a default
/// mode instead.
#[verifier::external_body]
pub fn write_file_with_mode(path: &str, bytes: &[u8], mode: u32) -> (r: Result<(), String>)
{
    let open = fs_err::OpenOptions::new()
        .create(true)
        .write(true)
        .truncate(true)
        .mode(mode)
        .open(path);
    match open {
        Ok(mut file) => file.write_all(bytes).map_err(|e| e.to_string()),
        Err(e) => Err(e.to_string()),
    }
}

/// Relies on std's `Path::exists`.
#[verifier::external_body]
pub fn path_exists(path: &str) -> (r: bool)
{
    std::path::Path::new(path).exists()
}

/// Relies on std's `Path::is_file`.
#[verifier::external_body]
pub fn path_is_file(path: &str) -> (r: bool)
{
    std::path::Path::new(path).is_file()
}

/// Relies on normpath's `PathExt::normalize`: resolves the path against the
/// filesystem into an absolute form. Fails when the path cannot be resolved;
/// hands back `None` when the resolved form is not valid unicode.
#[verifier::external_body]
pub fn normalize_path(path: &str) -> (r: Result<Option<String>, String>)
{
    match std::path::Path::new(path).normalize() {
        Ok(p) => Ok(p.into_path_buf().to_str().map(|s| s.to_owned())),
        Err(e) => Err(e.to_string()),
    }
}

/// Relies on fs_err's `read_link`: hands back the target a symbolic link
/// points to; fails when the target is not valid unicode.
#[verifier::external_body]
pub fn read_link_target(path: &str) -> (r: Result<String, String>)
{
    match fs_err::read_link(path) {
        Ok(p) => match p.to_str() {
            Some(s) => Ok(s.to_owned()),
            None => Err("link target contains non-unicode sequences".to_owned()),
        },
        Err(e) => Err(e.to_string()),
    }
}

/// Relies on fs_err's `read_dir`: lists a directory's immediate entries as
/// plain paths with their kinds.
#[verifier::external_body]
pub fn read_dir_entries(path: &str) -> (r: Result<Vec<WalkedEntry>, String>)
{
    let mut out = Vec::new();
    for entry in fs_err::read_dir(path).map_err(|e| e.to_string())? {
        let entry = entry.map_err(|e| e.to_string())?;
        let t = entry.file_type().map_err(|e| e.to_string())?;
        let kind = if t.is_dir() { EntryKind::Directory } else if t.is_file() { EntryKind::RegularFile } else if t.is_symlink() { EntryKind::Symlink } else { EntryKind::Other };
        let path = entry.path().to_str().ok_or_else(|| "directory entry is not valid unicode".to_owned())?.to_owned();
        out.push(WalkedEntry { path, kind });
    }
    Ok(out)
}

/// Relies on ignore's `WalkBuilder`: walks a directory tree and hands each met
/// entry out as a plain path with its kind; symlinked entries are reported as
/// symlinks. `include_hidden` keeps hidden entries; `standard_filters` applies
/// the crate's default ignore rules.
#[verifier::external_body]
pub fn walk_dir(root: &str, include_hidden: bool, standard_filters: bool) -> (r: Result<
    Vec<WalkedEntry>,
    String,
>)
{
    let mut out = Vec::new();
    let walk = ignore::WalkBuilder::new(root).standard_filters(standard_filters).hidden(!include_hidden).build();
    for entry in walk {
        let entry = entry.map_err(|e| e.to_string())?;
        let kind = if entry.path_is_symlink() { EntryKind::Symlink } else if entry.path().is_dir() { EntryKind::Directory } else if entry.path().is_file() { EntryKind::RegularFile } else { EntryKind::Other };
        let path = entry.path().to_str().ok_or_else(|| "walked entry is not valid unicode".to_owned())?.to_owned();
        out.push(WalkedEntry { path, kind });
    }
    Ok(out)
}

/// Relies on glob's `glob`: hands back the paths matching the pattern, with
/// their kinds; fails when the pattern is invalid, and passes over entries the
/// crate reports as unreadable, as the matcher's iterator surfaces them.
#[verifier::external_body]
pub fn glob_paths(pattern: &str) -> (r: Result<Vec<WalkedEntry>, String>)
{
    let paths = glob::glob(pattern).map_err(|e| e.to_string())?;
    let mut out = Vec::new();
    for source in paths.filter_map(Result::ok) {
        let kind = if source.is_dir() { EntryKind::Directory } else { EntryKind::RegularFile };
        let path = source.to_str().ok_or_else(|| "matched path is not valid unicode".to_owned())?.to_owned();
        out.push(WalkedEntry { path, kind });
    }
    Ok(out)
}

} // verus!
