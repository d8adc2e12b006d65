//! The filesystem backend: writes each entry under a base installation
//! directory (a virtualenv's site-packages, or any plain directory), honoring
//! POSIX permission bits, and serializes its ledger as a `RECORD` file at
//! finalize time. An in-place install has no packaging-exclusion concept, so
//! this backend never filters.
use vstd::prelude::*;
use crate::ArchiveError;
use crate::fsio;
use crate::hashing::content_hash;
use crate::hashing::content_hash_of;
use crate::metadata::PackageMetadata;
use crate::metadata::dist_info_dir_chars;
use crate::record::RecordEntry;
use crate::record::record_file_chars;
use crate::record::render_record;
use crate::strutil::joined;
use crate::strutil::path_join;
use crate::writer::EntryModel;
use crate::writer::ModuleWriter;

verus! {

/// The filesystem backend.
pub struct PathWriter {
    base_path: String,
    record: Vec<RecordEntry>,
    entries_ghost: Ghost<Seq<EntryModel>>,
}

impl PathWriter {
    /// The base installation directory.
    pub closed spec fn base_path_spec(&self) -> Seq<char> {
        self.base_path@
    }

    /// The integrity ledger as recorded so far.
    pub closed spec fn records_view(&self) -> Seq<RecordEntry> {
        self.record@
    }

    /// What this backend's contract words mean, spelled out: an in-place
    /// install has no packaging-exclusion concept, so nothing is ever
    /// excluded, no write is ever suppressed, and target paths are stored as
    /// given.
    pub proof fn lemma_semantics(&self)
        ensures
            forall|p: Seq<char>| #![all_triggers] !self.excluded(p),
            forall|t: Seq<char>| #![all_triggers] self.stored_path(t) == t,
            forall|t: Seq<char>| #![all_triggers] !self.suppresses_bytes(t),
            forall|t: Seq<char>, s: Seq<char>| #![all_triggers] !self.suppresses_file(t, s),
            forall|s: Seq<char>| #![all_triggers] !self.self_source(s),
    {
    }

    /// The ledger holds exactly one record per written entry, in write order,
    /// with the entry's path, the hash of exactly its bytes, and its byte
    /// length. (`write_record` appends the self-record line last, with empty
    /// hash and length fields.)
    pub proof fn lemma_ledger_matches_entries(&self)
        requires
            self.inv(),
        ensures
            self.records_view().len() == self.entries().len(),
            forall|i: int| #![all_triggers]
                0 <= i < self.entries().len() ==> self.records_view()[i].path@
                    == self.entries()[i].path && self.records_view()[i].hash@ == content_hash_of(
                    self.entries()[i].content,
                ) && self.records_view()[i].len == self.entries()[i].content.len(),
    {
    }

    /// Targets the site-packages directory of a virtualenv: the interpreter
    /// discovery collaborator resolves `site_packages` (relative to
    /// `venv_dir`) before handing it here.
    pub fn venv(venv_dir: &str, site_packages: &str) -> (r: PathWriter)
        ensures
            r.inv(),
            r.entries() == Seq::<EntryModel>::empty(),
            r.base_path_spec() == joined(venv_dir@, site_packages@),
    {
        PathWriter {
            base_path: path_join(venv_dir, site_packages),
            record: Vec::new(),
            entries_ghost: Ghost(Seq::empty()),
        }
    }

    /// Writes the module to the given path.
    pub fn from_path(path: &str) -> (r: PathWriter)
        ensures
            r.inv(),
            r.entries() == Seq::<EntryModel>::empty(),
            r.base_path_spec() == path@,
    {
        PathWriter {
            base_path: path.to_owned(),
            record: Vec::new(),
            entries_ghost: Ghost(Seq::empty()),
        }
    }

    /// Removes a directory relative to the base path if it exists, to clean up
    /// the contents of an older in-place install; a missing directory is a
    /// no-op, not an error. A removal failure carries the joined path.
    pub fn delete_dir(&self, relative: &str) -> (r: Result<(), ArchiveError>)
        ensures
            r matches Err(e) ==> e matches ArchiveError::Io { path, message } && path@ == joined(
                self.base_path_spec(),
                relative@,
            ),
    {
        let absolute = path_join(self.base_path.as_str(), relative);
        if fsio::path_exists(absolute.as_str()) {
            match fsio::remove_dir_all(absolute.as_str()) {
                Ok(()) => Ok(()),
                Err(message) => Err(ArchiveError::Io { path: absolute, message }),
            }
        } else {
            Ok(())
        }
    }

    /// Serializes the integrity ledger in the `RECORD` format: one line per
    /// record in write order, then the record file's own line, naming it by
    /// its archive-relative path `{dist-info}/RECORD` with empty hash and
    /// length fields — it cannot hash itself.
    pub fn record_contents(&self, metadata: &PackageMetadata) -> (r: String)
        ensures
            r@ == record_file_chars(
                self.records_view(),
                joined(dist_info_dir_chars(metadata.name@, metadata.version@), "RECORD"@),
            ),
    {
        let dist_info_dir = metadata.get_dist_info_dir();
        let record_name = path_join(dist_info_dir.as_str(), "RECORD");
        render_record(&self.record, record_name.as_str())
    }

    /// Writes the `RECORD` file into the metadata directory after everything
    /// else has been written; consuming the writer makes this the final
    /// operation. The bytes written are exactly what `record_contents`
    /// serializes; a failure carries the record file's on-disk path.
    pub fn write_record(self, metadata: &PackageMetadata) -> (r: Result<(), ArchiveError>)
        ensures
            r matches Err(e) ==> e matches ArchiveError::Io { path, message } && path@ == joined(
                joined(
                    self.base_path_spec(),
                    dist_info_dir_chars(metadata.name@, metadata.version@),
                ),
                "RECORD"@,
            ),
    {
        let contents = self.record_contents(metadata);
        let dist_info_dir = metadata.get_dist_info_dir();
        let record_path = path_join(
            path_join(self.base_path.as_str(), dist_info_dir.as_str()).as_str(),
            "RECORD",
        );
        match fsio::write_file(record_path.as_str(), contents.as_str().as_bytes()) {
            Ok(()) => Ok(()),
            Err(message) => Err(ArchiveError::Io { path: record_path, message }),
        }
    }
}

impl ModuleWriter for PathWriter {
    closed spec fn entries(&self) -> Seq<EntryModel> {
        self.entries_ghost@
    }

    closed spec fn inv(&self) -> bool {
        &&& self.record@.len() == self.entries_ghost@.len()
        &&& forall|i: int| #![all_triggers]
            0 <= i < self.entries_ghost@.len() ==> self.record@[i].path@
                == self.entries_ghost@[i].path && self.record@[i].hash@ == content_hash_of(
                self.entries_ghost@[i].content,
            ) && self.record@[i].len == self.entries_ghost@[i].content.len()
    }

    closed spec fn excluded(&self, path: Seq<char>) -> bool {
        false
    }

    closed spec fn stored_path(&self, target: Seq<char>) -> Seq<char> {
        target
    }

    closed spec fn suppresses_bytes(&self, target: Seq<char>) -> bool {
        false
    }

    closed spec fn suppresses_file(&self, target: Seq<char>, source: Seq<char>) -> bool {
        false
    }

    closed spec fn self_source(&self, source: Seq<char>) -> bool {
        false
    }

    closed spec fn same_config(&self, other: &Self) -> bool {
        self.base_path@ == other.base_path@
    }

    proof fn config_properties(&self, other: &Self) {
    }

    proof fn config_refl(&self) {
    }

    proof fn config_trans(a: &Self, b: &Self, c: &Self) {
    }

    proof fn suppression_bound(&self, target: Seq<char>) {
    }

    proof fn suppression_determined(&self, other: &Self, target: Seq<char>, source: Seq<char>) {
    }

    proof fn file_suppression_bound(&self, target: Seq<char>, source: Seq<char>) {
    }

    fn add_directory(&mut self, path: &str) -> (r: Result<(), ArchiveError>) {
        let target = path_join(self.base_path.as_str(), path);
        match fsio::create_dir_all(target.as_str()) {
            Ok(()) => Ok(()),
            Err(message) => Err(ArchiveError::Io { path: target, message }),
        }
    }

    fn add_bytes_with_permissions(&mut self, target: &str, bytes: &[u8], permissions: u32) -> (r:
        Result<(), ArchiveError>) {
        let path = path_join(self.base_path.as_str(), target);
        match fsio::write_file_with_mode(path.as_str(), bytes, permissions) {
            Ok(()) => {},
            Err(message) => {
                return Err(ArchiveError::Io { path, message });
            },
        }
        let hash = content_hash(bytes);
        let ghost pre = self.entries_ghost@;
        let len = bytes.len();
        self.record.push(RecordEntry { path: target.to_owned(), hash, len });
        self.entries_ghost = Ghost(
            pre.push(EntryModel { path: target@, content: bytes@, mode: permissions }),
        );
        Ok(())
    }

    fn add_file(&mut self, target: &str, source: &str) -> (r: Result<(), ArchiveError>) {
        self.add_file_with_permissions(target, source, 0o644)
    }
}

} // verus!
