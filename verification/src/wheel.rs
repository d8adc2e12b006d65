//! The zip backend: a wheel archive written to `{name}-{version}-{tag}.whl`,
//! with the exclusion filter applied before every write and an integrity
//! ledger serialized as the `RECORD` entry at finalize time.
use vstd::prelude::*;
use vstd::string::StringExecFns;
use std::io::Write;
use crate::ArchiveError;
use crate::dist_info::dist_info_written;
use crate::dist_info::write_dist_info;
use crate::exclude::ExclusionFilter;
use crate::exclude::check_excluded;
use crate::exclude::opt_excludes;
use crate::hashing::content_hash;
use crate::hashing::content_hash_of;
use crate::metadata::PackageMetadata;
use crate::metadata::dist_info_dir_chars;
use crate::metadata::wheel_name_chars;
use crate::record::RecordEntry;
use crate::record::record_file_chars;
use crate::record::render_record;
use crate::strutil::joined;
use crate::strutil::path_join;
use crate::strutil::replace_char;
use crate::strutil::replaced;
use crate::writer::EntryModel;
use crate::writer::ModuleWriter;
use crate::writer::contains_path;

verus! {

/// Holds the in-progress zip stream. Verus refuses the declaration of zip's
/// generic `ZipWriter` type (its `Write + Seek` bounds carry no
/// specification), so the stream lives in this opaque holder.
#[verifier::external_body]
struct ZipStream {
    zip: zip::ZipWriter<fs_err::File>,
}

/// Relies on fs_err's `File::create` and zip's `ZipWriter::new`: opens a zip
/// stream writing to a fresh file at `path`.
#[verifier::external_body]
fn zip_create(path: &str) -> (r: Result<ZipStream, String>)
{
    let file = fs_err::File::create(path).map_err(|e| e.to_string())?;
    Ok(ZipStream { zip: zip::ZipWriter::new(file) })
}

/// Relies on zip's `SimpleFileOptions` (`unix_permissions`,
/// `compression_method`) and `ZipWriter::start_file`: starts a new entry at
/// `name` carrying the given permission bits, stored uncompressed when
/// `stored` is set and deflate-compressed otherwise.
#[verifier::external_body]
fn zip_start_file(zip: &mut ZipStream, name: &str, mode: u32, stored: bool) -> (r: Result<
    (),
    String,
>)
{
    let method = if stored {
        zip::CompressionMethod::Stored
    } else {
        zip::CompressionMethod::Deflated
    };
    let options = zip::write::SimpleFileOptions::default().unix_permissions(mode)
        .compression_method(method);
    zip.zip.start_file(name, options).map_err(|e| e.to_string())
}

/// Relies on std's `io::Write::write_all` through zip's `ZipWriter`: writes
/// the bytes of the entry most recently started.
#[verifier::external_body]
fn zip_write_all(zip: &mut ZipStream, bytes: &[u8]) -> (r: Result<(), String>)
{
    zip.zip.write_all(bytes).map_err(|e| e.to_string())
}

/// Relies on zip's `ZipWriter::abort_file`: removes the entry most recently
/// started, so a failed content write does not leave a torn entry in the
/// container.
#[verifier::external_body]
fn zip_abort_file(zip: &mut ZipStream) -> (r: Result<(), String>)
{
    zip.zip.abort_file().map_err(|e| e.to_string())
}

/// Relies on zip's `ZipWriter::finish`: writes the central directory and
/// closes the archive.
#[verifier::external_body]
fn zip_finish(zip: ZipStream) -> (r: Result<(), String>)
{
    match zip.zip.finish() {
        Ok(_) => Ok(()),
        Err(e) => Err(e.to_string()),
    }
}

/// A container-format failure while writing `target`.
fn wheel_write_error(target: &str, message: String) -> (r: ArchiveError)
    ensures
        r is Format,
{
    let mut m = "failed to write ".to_owned();
    m.append(target);
    m.append(" into the wheel: ");
    m.append(message.as_str());
    ArchiveError::Format { message: m }
}

/// The zip wheel backend: filters, normalizes, writes and records each entry.
pub struct WheelWriter {
    zip: ZipStream,
    record: Vec<RecordEntry>,
    record_file: String,
    wheel_path: String,
    excludes: Option<ExclusionFilter>,
    stored_compression: bool,
    entries_ghost: Ghost<Seq<EntryModel>>,
    targets_ghost: Ghost<Seq<Seq<char>>>,
}

impl WheelWriter {
    /// The wheel's own output path.
    pub closed spec fn output_path_spec(&self) -> Seq<char> {
        self.wheel_path@
    }

    /// The archive-internal path of the `RECORD` file.
    pub closed spec fn record_file_spec(&self) -> Seq<char> {
        self.record_file@
    }

    /// The exclusion rule set the backend was constructed with.
    pub closed spec fn filter_of(&self) -> Option<ExclusionFilter> {
        self.excludes
    }

    /// The integrity ledger as recorded so far.
    pub closed spec fn records_view(&self) -> Seq<RecordEntry> {
        self.record@
    }

    /// The raw target paths whose writes were admitted, in write order.
    pub closed spec fn targets_view(&self) -> Seq<Seq<char>> {
        self.targets_ghost@
    }

    /// What this backend's contract words mean, spelled out: target paths are
    /// stored with backslashes turned into slashes, and a write is dropped
    /// exactly when the filter excludes its raw target.
    pub proof fn lemma_semantics(&self)
        ensures
            forall|t: Seq<char>| #![all_triggers] self.stored_path(t) == replaced(t, '\\', '/'),
            forall|p: Seq<char>| #![all_triggers]
                self.excluded(p) == opt_excludes(self.filter_of(), p),
            forall|t: Seq<char>| #![all_triggers] self.suppresses_bytes(t) == self.excluded(t),
            forall|t: Seq<char>, s: Seq<char>| #![all_triggers]
                self.suppresses_file(t, s) == self.excluded(t),
    {
    }

    /// The ledger holds exactly one record per written entry, in write order:
    /// the recorded path is the entry's stored path, the recorded hash is the
    /// hash of exactly the bytes stored at that entry, and the recorded length
    /// is the entry's byte length. (`finish` appends the self-record line
    /// last, with empty hash and length fields.)
    pub proof fn lemma_ledger_matches_entries(&self)
        requires
            self.inv(),
        ensures
            self.records_view().len() == self.entries().len(),
            forall|i: int| #![all_triggers]
                0 <= i < self.entries().len() ==> self.records_view()[i].path@
                    == self.entries()[i].path && self.records_view()[i].hash@ == content_hash_of(
                    self.entries()[i].content,
                ) && self.records_view()[i].len == self.entries()[i].content.len(),
    {
    }

    /// No excluded path enters the archive or its ledger, however often it is
    /// offered: every entry stems from a raw target the filter admitted.
    pub proof fn lemma_no_excluded_entry(&self)
        requires
            self.inv(),
        ensures
            self.targets_view().len() == self.entries().len(),
            forall|i: int| #![all_triggers]
                0 <= i < self.entries().len() ==> !self.excluded(self.targets_view()[i])
                    && self.entries()[i].path == replaced(self.targets_view()[i], '\\', '/'),
    {
    }

    /// Creates a wheel named `{name}-{version}-{tag}.whl` under `wheel_dir`
    /// and immediately writes the metadata directory into it. A build-time
    /// `stored_compression` toggle selects uncompressed entries for faster
    /// iterative testing; production builds pass false and get deflate.
    pub fn new(
        tag: &str,
        wheel_dir: &str,
        metadata: &PackageMetadata,
        tags: &Vec<String>,
        excludes: Option<ExclusionFilter>,
        stored_compression: bool,
    ) -> (r: Result<WheelWriter, ArchiveError>)
        ensures
            r matches Ok(w) ==> w.inv() && w.filter_of() == excludes && w.output_path_spec()
                == joined(
                wheel_dir@,
                wheel_name_chars(metadata.name@, metadata.version@, tag@),
            ) && w.record_file_spec() == joined(
                dist_info_dir_chars(metadata.name@, metadata.version@),
                "RECORD"@,
            ),
            r matches Ok(w) ==> exists|empty: WheelWriter|
                #![all_triggers]
                empty.entries() == Seq::<EntryModel>::empty() && empty.same_config(&w)
                    && empty.filter_of() == excludes && dist_info_written(
                    empty,
                    w,
                    *metadata,
                    tags.deep_view(),
                ) && crate::dist_info::dist_info_bounded(empty, w, *metadata),
    {
        let name = metadata.wheel_name(tag);
        let wheel_path = path_join(wheel_dir, name.as_str());
        let dist_info_dir = metadata.get_dist_info_dir();
        let record_file = path_join(dist_info_dir.as_str(), "RECORD");
        match zip_create(wheel_path.as_str()) {
            Ok(zip) => {
                let mut builder = WheelWriter {
                    zip,
                    record: Vec::new(),
                    record_file,
                    wheel_path,
                    excludes,
                    stored_compression,
                    entries_ghost: Ghost(Seq::empty()),
                    targets_ghost: Ghost(Seq::empty()),
                };
                let ghost empty_state = builder;
                match write_dist_info(&mut builder, metadata, tags) {
                    Ok(()) => {
                        proof {
                            WheelWriter::config_properties(&builder, &empty_state);
                        }
                        Ok(builder)
                    },
                    Err(e) => Err(e),
                }
            },
            Err(message) => Err(ArchiveError::Io { path: wheel_path, message }),
        }
    }

    /// Adds the one `.pth` entry for an editable install: a file named
    /// `{name}.pth` at the wheel root whose content is `python_path`, the
    /// already-resolved directory holding the interpreted-source tree.
    pub fn add_pth_entry(&mut self, metadata: &PackageMetadata, python_path: &str) -> (r: Result<
        (),
        ArchiveError,
    >)
        requires
            old(self).inv(),
        ensures
            final(self).inv(),
            final(self).same_config(old(self)),
            crate::writer::entries_extend(old(self).entries(), final(self).entries()),
            ({
                let t = metadata.name@ + ".pth"@;
                &&& (old(self).suppresses_bytes(t) ==> r is Ok)
                &&& (r is Ok && old(self).suppresses_bytes(t) ==> final(self).entries() == old(
                    self,
                ).entries())
                &&& (r is Ok && !old(self).suppresses_bytes(t) ==> final(self).entries() == old(
                    self,
                ).entries().push(
                    EntryModel {
                        path: old(self).stored_path(t),
                        content: vstd::utf8::encode_utf8(python_path@),
                        mode: 0o644,
                    },
                ))
                &&& (r is Err ==> final(self).entries() == old(self).entries())
            }),
    {
        proof {
            assert(old(self).entries().take(old(self).entries().len() as int) =~= old(
                self,
            ).entries());
        }
        let mut target = metadata.name.clone();
        target.append(".pth");
        let r = self.add_bytes(target.as_str(), python_path.as_bytes());
        proof {
            if r is Ok && !old(self).suppresses_bytes(target@) {
                assert(final(self).entries().take(old(self).entries().len() as int) =~= old(
                    self,
                ).entries());
            }
        }
        r
    }

    /// Adds a `.pth` file at the wheel root for editable installs: its single
    /// line is the directory holding the interpreted-source tree, resolved
    /// against the filesystem. A project without an interpreted-source tree
    /// needs no `.pth` file; a resolved path that is not valid unicode cannot
    /// be pointed at by an editable install, so nothing is written either.
    /// `add_pth_entry` carries the exact contract of the write; this shell
    /// only resolves the path against the disk.
    pub fn add_pth(
        &mut self,
        project_layout: &crate::metadata::ProjectLayout,
        metadata: &PackageMetadata,
    ) -> (r: Result<(), ArchiveError>)
        requires
            old(self).inv(),
        ensures
            final(self).inv(),
            final(self).same_config(old(self)),
            crate::writer::entries_extend(old(self).entries(), final(self).entries()),
            r is Ok && project_layout.python_module is None ==> final(self).entries() == old(
                self,
            ).entries(),
    {
        proof {
            old(self).config_refl();
            assert(old(self).entries().take(old(self).entries().len() as int) =~= old(
                self,
            ).entries());
        }
        match &project_layout.python_module {
            Some(python_module) => {
                let absolute = match crate::fsio::normalize_path(python_module.as_str()) {
                    Ok(Some(absolute)) => absolute,
                    Ok(None) => {
                        // A non-unicode source path: an editable install
                        // cannot point at it, so the write is skipped.
                        return Ok(());
                    },
                    Err(message) => {
                        return Err(ArchiveError::Io { path: python_module.clone(), message });
                    },
                };
                let python_path = crate::strutil::before_last_exec(absolute.as_str(), '/');
                if python_path.as_str().unicode_len() == 0 {
                    // The source path has no derivable parent; an editable
                    // install cannot point at it, so nothing is written.
                    return Ok(());
                }
                self.add_pth_entry(metadata, python_path.as_str())
            },
            None => Ok(()),
        }
    }

    /// Serializes the integrity ledger in the `RECORD` format: one line per
    /// record in write order, then the record file's own line with empty hash
    /// and length fields.
    pub fn record_contents(&self) -> (r: String)
        ensures
            r@ == record_file_chars(
                self.records_view(),
                replaced(self.record_file_spec(), '\\', '/'),
            ),
    {
        let record_filename = replace_char(self.record_file.as_str(), '\\', '/');
        render_record(&self.record, record_filename.as_str())
    }

    /// Writes the ledger as the `RECORD` entry inside the metadata directory,
    /// closes the archive and hands back the wheel's path. Finalizing is the
    /// only legal way to close the backend, and the output path it returns is
    /// the only path promoted to a finished archive.
    pub fn finish(self) -> (r: Result<String, ArchiveError>)
        ensures
            r matches Ok(p) ==> p@ == self.output_path_spec(),
    {
        let record_filename = replace_char(self.record_file.as_str(), '\\', '/');
        let contents = render_record(&self.record, record_filename.as_str());
        let WheelWriter {
            zip: mut zip_stream,
            record: _,
            record_file: _,
            wheel_path,
            excludes: _,
            stored_compression,
            entries_ghost: _,
            targets_ghost: _,
        } = self;
        match zip_start_file(&mut zip_stream, record_filename.as_str(), 0o644, stored_compression) {
            Ok(()) => {},
            Err(message) => {
                return Err(ArchiveError::Format { message });
            },
        }
        match zip_write_all(&mut zip_stream, contents.as_str().as_bytes()) {
            Ok(()) => {},
            Err(message) => {
                return Err(ArchiveError::Format { message });
            },
        }
        match zip_finish(zip_stream) {
            Ok(()) => Ok(wheel_path),
            Err(message) => Err(ArchiveError::Format { message }),
        }
    }
}

impl ModuleWriter for WheelWriter {
    closed spec fn entries(&self) -> Seq<EntryModel> {
        self.entries_ghost@
    }

    closed spec fn inv(&self) -> bool {
        &&& self.record@.len() == self.entries_ghost@.len()
        &&& self.targets_ghost@.len() == self.entries_ghost@.len()
        &&& forall|i: int| #![all_triggers]
            0 <= i < self.entries_ghost@.len() ==> self.record@[i].path@
                == self.entries_ghost@[i].path && self.record@[i].hash@ == content_hash_of(
                self.entries_ghost@[i].content,
            ) && self.record@[i].len == self.entries_ghost@[i].content.len()
        &&& forall|i: int| #![all_triggers]
            0 <= i < self.entries_ghost@.len() ==> !opt_excludes(
                self.excludes,
                self.targets_ghost@[i],
            ) && self.entries_ghost@[i].path == replaced(self.targets_ghost@[i], '\\', '/')
    }

    closed spec fn excluded(&self, path: Seq<char>) -> bool {
        opt_excludes(self.excludes, path)
    }

    closed spec fn stored_path(&self, target: Seq<char>) -> Seq<char> {
        replaced(target, '\\', '/')
    }

    closed spec fn suppresses_bytes(&self, target: Seq<char>) -> bool {
        self.excluded(target)
    }

    closed spec fn suppresses_file(&self, target: Seq<char>, source: Seq<char>) -> bool {
        self.excluded(target)
    }

    closed spec fn self_source(&self, source: Seq<char>) -> bool {
        false
    }

    closed spec fn same_config(&self, other: &Self) -> bool {
        self.excludes == other.excludes && self.wheel_path@ == other.wheel_path@
            && self.record_file@ == other.record_file@ && self.stored_compression
            == other.stored_compression
    }

    proof fn config_properties(&self, other: &Self) {
    }

    proof fn file_suppression_bound(&self, target: Seq<char>, source: Seq<char>) {
    }

    proof fn config_refl(&self) {
    }

    proof fn config_trans(a: &Self, b: &Self, c: &Self) {
    }

    proof fn suppression_bound(&self, target: Seq<char>) {
    }

    proof fn suppression_determined(&self, other: &Self, target: Seq<char>, source: Seq<char>) {
    }

    fn add_directory(&mut self, path: &str) -> (r: Result<(), ArchiveError>)
        ensures
            r is Ok,
    {
        // Zip archives infer directories from entry paths.
        Ok(())
    }

    fn add_bytes_with_permissions(&mut self, target: &str, bytes: &[u8], permissions: u32) -> (r:
        Result<(), ArchiveError>) {
        if check_excluded(&self.excludes, target) {
            return Ok(());
        }
        // The zip container mandates unix-style path separators.
        let stored = replace_char(target, '\\', '/');
        match zip_start_file(&mut self.zip, stored.as_str(), permissions, self.stored_compression) {
            Ok(()) => {},
            Err(message) => {
                return Err(wheel_write_error(stored.as_str(), message));
            },
        }
        match zip_write_all(&mut self.zip, bytes) {
            Ok(()) => {},
            Err(message) => {
                // Drop the started entry: a failed write leaves the container
                // without a torn entry, per-call effects fully applied or not
                // at all.
                let aborted = zip_abort_file(&mut self.zip);
                match aborted {
                    _ => {},
                }
                return Err(wheel_write_error(stored.as_str(), message));
            },
        }
        let hash = content_hash(bytes);
        let ghost pre = self.entries_ghost@;
        let len = bytes.len();
        self.record.push(RecordEntry { path: stored, hash, len });
        self.entries_ghost = Ghost(
            pre.push(EntryModel { path: stored@, content: bytes@, mode: permissions }),
        );
        self.targets_ghost = Ghost(self.targets_ghost@.push(target@));
        Ok(())
    }

    fn add_file(&mut self, target: &str, source: &str) -> (r: Result<(), ArchiveError>) {
        self.add_file_with_permissions(target, source, 0o644)
    }
}

} // verus!
