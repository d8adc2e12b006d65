use std::io::Read;

use module_writer::exclude::ExclusionFilter;
use module_writer::metadata::PackageMetadata;
use module_writer::sdist::SDistWriter;
use module_writer::writer::ModuleWriter;
use tempfile::TempDir;

fn meta(name: &str, version: &str) -> PackageMetadata {
    let mut m = PackageMetadata::default();
    m.name = name.to_owned();
    m.version = version.to_owned();
    m
}

#[test]
fn sdist_writer_excludes() -> Result<(), Box<dyn std::error::Error>> {
    let metadata = PackageMetadata::default();
    let perm = 0o777;

    // No excludes
    let tmp_dir = TempDir::new()?;
    let dir = tmp_dir.path().to_str().unwrap();
    let mut writer = SDistWriter::new(dir, &metadata, None).unwrap();
    assert!(writer.num_files() == 0);
    writer.add_bytes_with_permissions("test", &[], perm).unwrap();
    assert_eq!(writer.num_files(), 1);
    writer.finish().unwrap();
    tmp_dir.close()?;

    // A test filter
    let tmp_dir = TempDir::new()?;
    let dir = tmp_dir.path().to_str().unwrap();
    let rules = vec!["test*".to_owned(), "!test2".to_owned()];
    let excludes = ExclusionFilter::new(dir, &rules).unwrap();
    let mut writer = SDistWriter::new(dir, &metadata, Some(excludes)).unwrap();
    writer.add_bytes_with_permissions("test1", &[], perm).unwrap();
    writer.add_bytes_with_permissions("test3", &[], perm).unwrap();
    assert!(writer.num_files() == 0);
    writer.add_bytes_with_permissions("test2", &[], perm).unwrap();
    assert!(!(writer.num_files() == 0));
    writer.add_bytes_with_permissions("yes", &[], perm).unwrap();
    assert_eq!(writer.num_files(), 2);
    writer.finish().unwrap();
    tmp_dir.close()?;

    Ok(())
}

#[test]
fn sdist_excluded_targets_never_reach_the_archive() {
    // Exclude rules `test*` then `!test2`: the offered targets test1 and
    // test3 stay out however often they are offered; test2 and yes go in.
    let tmp_dir = TempDir::new().unwrap();
    let dir = tmp_dir.path().to_str().unwrap();
    let rules = vec!["test*".to_owned(), "!test2".to_owned()];
    let excludes = ExclusionFilter::new(dir, &rules).unwrap();
    let metadata = meta("pkg", "1.0.0");
    let mut writer = SDistWriter::new(dir, &metadata, Some(excludes)).unwrap();
    for _ in 0..3 {
        writer.add_bytes_with_permissions("test1", b"a", 0o644).unwrap();
        writer.add_bytes_with_permissions("test2", b"b", 0o644).unwrap();
        writer.add_bytes_with_permissions("test3", b"c", 0o644).unwrap();
        writer.add_bytes_with_permissions("yes", b"d", 0o644).unwrap();
    }
    assert!(!writer.contains_target("test1"));
    assert!(writer.contains_target("test2"));
    assert!(!writer.contains_target("test3"));
    assert!(writer.contains_target("yes"));
    assert_eq!(writer.num_files(), 2);
    let path = writer.finish().unwrap();

    // The finalized archive holds exactly test2 and yes.
    let file = fs_err::File::open(&path).unwrap();
    let mut archive = tar::Archive::new(flate2::read::GzDecoder::new(file));
    let mut names: Vec<String> = Vec::new();
    for entry in archive.entries().unwrap() {
        let entry = entry.unwrap();
        names.push(entry.path().unwrap().to_str().unwrap().to_owned());
    }
    names.sort();
    assert_eq!(names, vec!["test2".to_owned(), "yes".to_owned()]);
}

#[test]
fn sdist_deduplicates_keeping_first_content() {
    // Writing the same target twice yields one entry with the first content.
    let tmp_dir = TempDir::new().unwrap();
    let dir = tmp_dir.path().to_str().unwrap();
    let metadata = meta("pkg", "1.0.0");
    let mut writer = SDistWriter::new(dir, &metadata, None).unwrap();
    writer.add_bytes_with_permissions("dup.txt", b"first", 0o644).unwrap();
    writer.add_bytes_with_permissions("dup.txt", b"second", 0o644).unwrap();
    assert_eq!(writer.num_files(), 1);
    let path = writer.finish().unwrap();

    let file = fs_err::File::open(&path).unwrap();
    let mut archive = tar::Archive::new(flate2::read::GzDecoder::new(file));
    let mut seen = 0;
    for entry in archive.entries().unwrap() {
        let mut entry = entry.unwrap();
        assert_eq!(entry.path().unwrap().to_str().unwrap(), "dup.txt");
        let mut contents = String::new();
        entry.read_to_string(&mut contents).unwrap();
        assert_eq!(contents, "first");
        seen += 1;
    }
    assert_eq!(seen, 1);
}

#[test]
fn sdist_self_inclusion_is_a_silent_no_op() {
    // Offering the archive's own output path as a source produces zero
    // entries and no error.
    let tmp_dir = TempDir::new().unwrap();
    let dir = tmp_dir.path().to_str().unwrap();
    let metadata = meta("pkg", "1.0.0");
    let mut writer = SDistWriter::new(dir, &metadata, None).unwrap();
    let own_path = format!("{}/pkg-1.0.0.tar.gz", dir);
    writer.add_file("inside.tar.gz", &own_path).unwrap();
    assert_eq!(writer.num_files(), 0);
    let path = writer.finish().unwrap();
    assert_eq!(path, own_path);
}

#[test]
fn sdist_file_copy_filters_the_archive_path() {
    // The filter applies to archive paths before any write side effect: a
    // file copy whose target is excluded is dropped even when its source is
    // clean, and the call still succeeds.
    let tmp_dir = TempDir::new().unwrap();
    let dir = tmp_dir.path().to_str().unwrap();
    let source = format!("{}/clean-source.txt", dir);
    fs_err::write(&source, b"content").unwrap();
    let rules = vec!["secret*".to_owned()];
    let excludes = ExclusionFilter::new(dir, &rules).unwrap();
    let metadata = meta("pkg", "1.0.0");
    let mut writer = SDistWriter::new(dir, &metadata, Some(excludes)).unwrap();
    writer.add_file("secret.txt", &source).unwrap();
    assert_eq!(writer.num_files(), 0);
    writer.add_file("kept.txt", &source).unwrap();
    assert_eq!(writer.num_files(), 1);
    let path = writer.finish().unwrap();

    let file = fs_err::File::open(&path).unwrap();
    let mut archive = tar::Archive::new(flate2::read::GzDecoder::new(file));
    let mut names: Vec<String> = Vec::new();
    for entry in archive.entries().unwrap() {
        let entry = entry.unwrap();
        names.push(entry.path().unwrap().to_str().unwrap().to_owned());
    }
    assert_eq!(names, vec!["kept.txt".to_owned()]);
}

#[test]
fn sdist_output_path_and_name() {
    let tmp_dir = TempDir::new().unwrap();
    let dir = tmp_dir.path().to_str().unwrap();
    let metadata = meta("some_pkg", "0.3.1");
    let writer = SDistWriter::new(dir, &metadata, None).unwrap();
    let path = writer.finish().unwrap();
    assert_eq!(path, format!("{}/some_pkg-0.3.1.tar.gz", dir));
}
