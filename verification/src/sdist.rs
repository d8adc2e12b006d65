//! The gzip-tar backend: a source archive written to
//! `{name}-{version}.tar.gz`, with first-writer-wins deduplication and a
//! self-inclusion guard.
use vstd::prelude::*;
use vstd::string::StringExecFns;
use crate::ArchiveError;
use crate::exclude::ExclusionFilter;
use crate::exclude::check_excluded;
use crate::exclude::opt_excludes;
use crate::metadata::PackageMetadata;
use crate::metadata::sdist_name_chars;
use crate::strutil::joined;
use crate::strutil::path_join;
use crate::strutil::str_eq;
use crate::strutil::vec_contains_str;
use crate::writer::EntryModel;
use crate::writer::ModuleWriter;
use crate::writer::contains_path;

verus! {

/// Holds the in-progress gzip-tar stream. Verus refuses the declaration of
/// tar's generic `Builder` type (its `Write` bound carries no specification),
/// so the stream lives in this opaque holder.
#[verifier::external_body]
struct TarStream {
    tar: tar::Builder<flate2::write::GzEncoder<fs_err::File>>,
}

/// Relies on fs_err's `File::create`, flate2's `GzEncoder::new` with the
/// default compression level, and tar's `Builder::new`: opens a gzip-compressed
/// tar stream writing to a fresh file at `path`.
#[verifier::external_body]
fn tar_create(path: &str) -> (r: Result<TarStream, String>)
{
    let tar_gz = fs_err::File::create(path).map_err(|e| e.to_string())?;
    let enc = flate2::write::GzEncoder::new(tar_gz, flate2::Compression::default());
    Ok(TarStream { tar: tar::Builder::new(enc) })
}

/// Relies on tar's `Header` (`new_gnu`, `set_size`, `set_mode`, `set_cksum`)
/// and `Builder::append_data`: appends one entry at `target` whose header
/// carries the byte length, the requested mode and a computed checksum, and
/// streams `bytes` as its content.
#[verifier::external_body]
fn tar_append_bytes(tar: &mut TarStream, target: &str, bytes: &[u8], mode: u32) -> (r: Result<
    (),
    String,
>)
{
    let mut header = tar::Header::new_gnu();
    header.set_size(bytes.len() as u64);
    header.set_mode(mode);
    header.set_cksum();
    tar.tar.append_data(&mut header, target, bytes).map_err(|e| e.to_string())
}

/// Relies on tar's `Builder::append_path_with_name`: streams the file at
/// `source` into the archive at `target`, taking length and mode from the
/// file's own metadata.
#[verifier::external_body]
fn tar_append_file(tar: &mut TarStream, source: &str, target: &str) -> (r: Result<(), String>)
{
    tar.tar.append_path_with_name(source, target).map_err(|e| e.to_string())
}

/// Relies on tar's `Builder::finish`: writes the archive's terminating
/// sections.
#[verifier::external_body]
fn tar_finish(tar: &mut TarStream) -> (r: Result<(), String>)
{
    tar.tar.finish().map_err(|e| e.to_string())
}

/// How an entry got into the source archive.
pub ghost enum SdistOrigin {
    /// An in-memory write: its raw target, which the filter admitted.
    Bytes { target: Seq<char> },
    /// A file copy: a target and a source the filter both admitted, the
    /// source not being the archive's own output.
    FileCopy { target: Seq<char>, source: Seq<char> },
}

/// True when the entry at `entry` was admitted by the filter under this
/// origin: a byte write's target is not excluded; a file copy's target and
/// source are both not excluded and the source is not the archive's own
/// output path.
pub open spec fn origin_admitted(
    origin: SdistOrigin,
    entry: EntryModel,
    excludes: Option<ExclusionFilter>,
    own_path: Seq<char>,
) -> bool {
    match origin {
        SdistOrigin::Bytes { target } => !opt_excludes(excludes, target) && entry.path == target,
        SdistOrigin::FileCopy { target, source } => !opt_excludes(excludes, target)
            && !opt_excludes(excludes, source) && source != own_path && entry.path == target,
    }
}

/// The gzip-tar source archive backend. No integrity ledger is produced for
/// this backend — the tar format carries its own completeness guarantee.
pub struct SDistWriter {
    tar: TarStream,
    path: String,
    files: Vec<String>,
    excludes: Option<ExclusionFilter>,
    entries_ghost: Ghost<Seq<EntryModel>>,
    origins_ghost: Ghost<Seq<SdistOrigin>>,
}

impl SDistWriter {
    /// The archive's own output path.
    pub closed spec fn output_path_spec(&self) -> Seq<char> {
        self.path@
    }

    /// The exclusion rule set the backend was constructed with.
    pub closed spec fn filter_of(&self) -> Option<ExclusionFilter> {
        self.excludes
    }

    /// What this backend's contract words mean, spelled out: paths are stored
    /// as given; a byte write is dropped when its target is excluded or
    /// already written; a file copy is dropped when its target or its source
    /// is excluded, when the source is the archive's own output path, or when
    /// the target is already written.
    pub proof fn lemma_semantics(&self)
        ensures
            forall|t: Seq<char>| #![all_triggers] self.stored_path(t) == t,
            forall|p: Seq<char>| #![all_triggers]
                self.excluded(p) == opt_excludes(self.filter_of(), p),
            forall|t: Seq<char>| #![all_triggers]
                self.suppresses_bytes(t) == (self.excluded(t) || contains_path(self.entries(), t)),
            forall|t: Seq<char>, s: Seq<char>| #![all_triggers]
                self.suppresses_file(t, s) == (self.excluded(t) || self.excluded(s) || s
                    == self.output_path_spec() || contains_path(self.entries(), t)),
    {
    }

    /// Where each entry came from, in write order.
    pub closed spec fn origins_view(&self) -> Seq<SdistOrigin> {
        self.origins_ghost@
    }

    /// No excluded path enters the archive, however often it is offered:
    /// every entry's path was admitted by the filter, and every entry stems
    /// either from a byte write or from a file copy whose source the filter
    /// also admitted and which was not the archive's own output.
    pub proof fn lemma_no_excluded_entry(&self)
        requires
            self.inv(),
        ensures
            self.origins_view().len() == self.entries().len(),
            forall|i: int|
                0 <= i < self.entries().len() ==> origin_admitted(
                    #[trigger] self.origins_view()[i],
                    self.entries()[i],
                    self.filter_of(),
                    self.output_path_spec(),
                ),
            forall|i: int| #![all_triggers]
                0 <= i < self.entries().len() ==> !self.excluded(self.entries()[i].path),
    {
        assert forall|i: int| 0 <= i < self.entries().len() implies !self.excluded(
            self.entries()[i].path,
        ) by {
            assert(origin_admitted(
                self.origins_view()[i],
                self.entries()[i],
                self.filter_of(),
                self.output_path_spec(),
            ));
        }
    }

    /// Distinct target paths: deduplication leaves at most one entry per path.
    pub proof fn lemma_entries_distinct(&self)
        requires
            self.inv(),
        ensures
            forall|i: int, j: int|
                0 <= i < j < self.entries().len() ==> self.entries()[i].path
                    != self.entries()[j].path,
    {
    }

    /// The written target paths and the entry model name the same paths.
    proof fn lemma_files_entries(&self, target: Seq<char>)
        requires
            self.inv(),
        ensures
            self.files.deep_view().contains(target) == contains_path(self.entries_ghost@, target),
    {
        if self.files.deep_view().contains(target) {
            let i = choose|i: int|
                0 <= i < self.files.deep_view().len() && self.files.deep_view()[i] == target;
            assert(self.entries_ghost@[i].path == target);
        }
        if contains_path(self.entries_ghost@, target) {
            let i = choose|i: int|
                0 <= i < self.entries_ghost@.len() && self.entries_ghost@[i].path == target;
            assert(self.files.deep_view()[i] == target);
        }
    }

    /// Creates a source archive named `{name}-{version}.tar.gz` under
    /// `wheel_dir`.
    pub fn new(wheel_dir: &str, metadata: &PackageMetadata, excludes: Option<ExclusionFilter>) -> (r:
        Result<SDistWriter, ArchiveError>)
        ensures
            r matches Ok(w) ==> w.inv() && w.entries() == Seq::<EntryModel>::empty()
                && w.filter_of() == excludes && w.output_path_spec() == joined(
                wheel_dir@,
                sdist_name_chars(metadata.name@, metadata.version@),
            ),
    {
        let name = metadata.sdist_name();
        let path = path_join(wheel_dir, name.as_str());
        match tar_create(path.as_str()) {
            Ok(tar) => Ok(
                SDistWriter {
                    tar,
                    path,
                    files: Vec::new(),
                    excludes,
                    entries_ghost: Ghost(Seq::empty()),
                    origins_ghost: Ghost(Seq::empty()),
                },
            ),
            Err(message) => Err(ArchiveError::Io { path, message }),
        }
    }

    /// How many entries have been written.
    pub fn num_files(&self) -> (r: usize)
        requires
            self.inv(),
        ensures
            r == self.entries().len(),
    {
        self.files.len()
    }

    /// Whether an entry already sits at `target`.
    pub fn contains_target(&self, target: &str) -> (r: bool)
        requires
            self.inv(),
        ensures
            r == contains_path(self.entries(), target@),
    {
        let r = vec_contains_str(&self.files, target);
        proof {
            self.lemma_files_entries(target@);
        }
        r
    }

    /// Writes the archive's terminating sections and hands back its path.
    /// Finalizing is the only legal way to close the backend; the output is
    /// usable only when every preceding write succeeded and this call returns
    /// the path.
    pub fn finish(self) -> (r: Result<String, ArchiveError>)
        ensures
            r matches Ok(p) ==> p@ == self.output_path_spec(),
    {
        let SDistWriter {
            mut tar,
            path,
            files: _,
            excludes: _,
            entries_ghost: _,
            origins_ghost: _,
        } = self;
        match tar_finish(&mut tar) {
            Ok(()) => Ok(path),
            Err(message) => Err(ArchiveError::Format { message }),
        }
    }
}

impl ModuleWriter for SDistWriter {
    closed spec fn entries(&self) -> Seq<EntryModel> {
        self.entries_ghost@
    }

    closed spec fn inv(&self) -> bool {
        &&& self.files.deep_view().len() == self.entries_ghost@.len()
        &&& self.origins_ghost@.len() == self.entries_ghost@.len()
        &&& forall|i: int|
            0 <= i < self.entries_ghost@.len() ==> self.files.deep_view()[i]
                == self.entries_ghost@[i].path
        &&& forall|i: int, j: int|
            0 <= i < j < self.entries_ghost@.len() ==> self.entries_ghost@[i].path
                != self.entries_ghost@[j].path
        &&& forall|i: int|
            0 <= i < self.entries_ghost@.len() ==> origin_admitted(
                #[trigger] self.origins_ghost@[i],
                self.entries_ghost@[i],
                self.excludes,
                self.path@,
            )
    }

    closed spec fn excluded(&self, path: Seq<char>) -> bool {
        opt_excludes(self.excludes, path)
    }

    closed spec fn stored_path(&self, target: Seq<char>) -> Seq<char> {
        target
    }

    closed spec fn suppresses_bytes(&self, target: Seq<char>) -> bool {
        self.excluded(target) || contains_path(self.entries_ghost@, target)
    }

    closed spec fn suppresses_file(&self, target: Seq<char>, source: Seq<char>) -> bool {
        self.excluded(target) || self.excluded(source) || source == self.path@ || contains_path(
            self.entries_ghost@,
            target,
        )
    }

    closed spec fn self_source(&self, source: Seq<char>) -> bool {
        source == self.path@
    }

    closed spec fn same_config(&self, other: &Self) -> bool {
        self.excludes == other.excludes && self.path@ == other.path@
    }

    proof fn config_properties(&self, other: &Self) {
    }

    proof fn file_suppression_bound(&self, target: Seq<char>, source: Seq<char>) {
    }

    proof fn config_refl(&self) {
    }

    proof fn config_trans(a: &Self, b: &Self, c: &Self) {
    }

    proof fn suppression_bound(&self, target: Seq<char>) {
    }

    proof fn suppression_determined(&self, other: &Self, target: Seq<char>, source: Seq<char>) {
    }

    fn add_directory(&mut self, path: &str) -> (r: Result<(), ArchiveError>)
        ensures
            r is Ok,
    {
        Ok(())
    }

    fn add_bytes_with_permissions(&mut self, target: &str, bytes: &[u8], permissions: u32) -> (r:
        Result<(), ArchiveError>) {
        proof {
            old(self).lemma_files_entries(target@);
        }
        if check_excluded(&self.excludes, target) {
            return Ok(());
        }
        if vec_contains_str(&self.files, target) {
            return Ok(());
        }
        let appended = tar_append_bytes(&mut self.tar, target, bytes, permissions);
        match appended {
            Ok(()) => {
                let ghost pre = self.entries_ghost@;
                self.files.push(target.to_owned());
                self.entries_ghost = Ghost(
                    pre.push(EntryModel { path: target@, content: bytes@, mode: permissions }),
                );
                self.origins_ghost = Ghost(
                    self.origins_ghost@.push(SdistOrigin::Bytes { target: target@ }),
                );
                proof {
                    assert(self.files.deep_view() =~= old(self).files.deep_view().push(target@));
                    assert forall|i: int, j: int|
                        0 <= i < j < self.entries_ghost@.len() implies self.entries_ghost@[i].path
                        != self.entries_ghost@[j].path by {
                        if j == pre.len() {
                            assert(pre[i].path != target@);
                        }
                    }
                }
                Ok(())
            },
            Err(message) => {
                let mut m = "failed to add bytes to the source archive as ".to_owned();
                m.append(target);
                m.append(": ");
                m.append(message.as_str());
                Err(ArchiveError::Format { message: m })
            },
        }
    }

    fn add_file(&mut self, target: &str, source: &str) -> (r: Result<(), ArchiveError>)
        ensures
            old(self).suppresses_file(target@, source@) ==> r is Ok,
    {
        proof {
            old(self).lemma_files_entries(target@);
        }
        if check_excluded(&self.excludes, target) {
            return Ok(());
        }
        if check_excluded(&self.excludes, source) {
            return Ok(());
        }
        if str_eq(source, self.path.as_str()) {
            // The archive must not include its own output: a skipped write, not
            // an error.
            return Ok(());
        }
        if vec_contains_str(&self.files, target) {
            return Ok(());
        }
        let appended = tar_append_file(&mut self.tar, source, target);
        match appended {
            Ok(()) => {
                let ghost pre = self.entries_ghost@;
                let ghost content: Seq<u8> = arbitrary();
                let ghost mode: u32 = arbitrary();
                self.files.push(target.to_owned());
                self.entries_ghost = Ghost(pre.push(EntryModel { path: target@, content, mode }));
                self.origins_ghost = Ghost(
                    self.origins_ghost@.push(
                        SdistOrigin::FileCopy { target: target@, source: source@ },
                    ),
                );
                proof {
                    assert(self.files.deep_view() =~= old(self).files.deep_view().push(target@));
                    assert forall|i: int, j: int|
                        0 <= i < j < self.entries_ghost@.len() implies self.entries_ghost@[i].path
                        != self.entries_ghost@[j].path by {
                        if j == pre.len() {
                            assert(pre[i].path != target@);
                        }
                    }
                    assert(final(self).entries() == old(self).entries().push(
                        EntryModel { path: old(self).stored_path(target@), content, mode },
                    ));
                }
                Ok(())
            },
            Err(message) => {
                let mut m = "failed to add the file ".to_owned();
                m.append(source);
                m.append(" to the source archive as ");
                m.append(target);
                m.append(": ");
                m.append(message.as_str());
                Err(ArchiveError::Format { message: m })
            },
        }
    }
}

} // verus!
