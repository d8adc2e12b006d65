//! The archive-backend capability contract: one write-only interface with
//! three independently substitutable implementations (filesystem, zip wheel,
//! gzip-tar source archive).
use vstd::prelude::*;
use crate::ArchiveError;
use crate::fsio;

verus! {

/// The model of one written archive entry: its archive-internal path, its
/// content bytes and its unix permission bits. Entries are immutable once
/// written; the contract never supports update or delete.
pub ghost struct EntryModel {
    pub path: Seq<char>,
    pub content: Seq<u8>,
    pub mode: u32,
}

/// True when some entry in `entries` sits at `path`.
pub open spec fn contains_path(entries: Seq<EntryModel>, path: Seq<char>) -> bool {
    exists|i: int| 0 <= i < entries.len() && entries[i].path == path
}

/// True when some entry in `entries` sits at `path` with exactly `content`.
pub open spec fn contains_entry(entries: Seq<EntryModel>, path: Seq<char>, content: Seq<u8>) -> bool {
    exists|i: int| 0 <= i < entries.len() && entries[i].path == path && entries[i].content
        == content
}

/// True when some entry in `entries` sits at `path` with exactly the
/// permission bits `mode`.
pub open spec fn contains_file_at(entries: Seq<EntryModel>, path: Seq<char>, mode: u32) -> bool {
    exists|i: int| 0 <= i < entries.len() && entries[i].path == path && entries[i].mode == mode
}

/// True when `post` extends `pre` without touching what was already written.
pub open spec fn entries_extend(pre: Seq<EntryModel>, post: Seq<EntryModel>) -> bool {
    pre.len() <= post.len() && post.take(pre.len() as int) == pre
}

/// A write-only archive backend. A backend is constructed once per build,
/// receives a sequence of entry writes, and is finalized exactly once by an
/// inherent method of the concrete type; entries appear in the container in
/// exactly the order in which they were written, except entries silently
/// dropped by exclusion or deduplication.
pub trait ModuleWriter: Sized {
    /// The entries written so far, in write order.
    spec fn entries(&self) -> Seq<EntryModel>;

    /// Well-formedness of the backend state.
    spec fn inv(&self) -> bool;

    /// True when the backend's exclusion filter suppresses a write at `path`.
    spec fn excluded(&self, path: Seq<char>) -> bool;

    /// The archive-internal form of a requested target path.
    spec fn stored_path(&self, target: Seq<char>) -> Seq<char>;

    /// True when an `add_bytes*` call at `target` is dropped in this state.
    spec fn suppresses_bytes(&self, target: Seq<char>) -> bool;

    /// True when an `add_file*` call from `source` to `target` is dropped in
    /// this state.
    spec fn suppresses_file(&self, target: Seq<char>, source: Seq<char>) -> bool;

    /// True when the backend refuses `source` as its own output (the
    /// source archive's self-inclusion guard); false for the other backends.
    spec fn self_source(&self, source: Seq<char>) -> bool;

    /// True when the two states share every configuration ingredient (filter,
    /// naming, output path), so that only the written entries may differ.
    spec fn same_config(&self, other: &Self) -> bool;

    /// Configuration equality carries the exclusion filter and the path
    /// normalization across writes.
    proof fn config_properties(&self, other: &Self)
        requires
            self.same_config(other),
        ensures
            forall|p: Seq<char>| self.excluded(p) == other.excluded(p),
            forall|p: Seq<char>| self.stored_path(p) == other.stored_path(p),
            forall|s: Seq<char>| self.self_source(s) == other.self_source(s),
            other.same_config(self),
    ;

    /// A state shares its configuration with itself.
    proof fn config_refl(&self)
        ensures
            self.same_config(self),
    ;

    /// Configuration equality composes across a sequence of writes.
    proof fn config_trans(a: &Self, b: &Self, c: &Self)
        requires
            a.same_config(b),
            b.same_config(c),
        ensures
            a.same_config(c),
    ;

    /// A byte write is dropped only because its target is excluded or because
    /// an entry already sits at the stored target path.
    proof fn suppression_bound(&self, target: Seq<char>)
        ensures
            self.suppresses_bytes(target) ==> self.excluded(target) || contains_path(
                self.entries(),
                self.stored_path(target),
            ),
    ;

    /// A file copy is dropped only because its target or source is excluded,
    /// because the source is the backend's own output, or because an entry
    /// already sits at the stored target path.
    proof fn file_suppression_bound(&self, target: Seq<char>, source: Seq<char>)
        ensures
            self.suppresses_file(target, source) ==> self.excluded(target) || self.excluded(source)
                || self.self_source(source) || contains_path(
                self.entries(),
                self.stored_path(target),
            ),
    ;

    /// Suppression is determined by the configuration and the written
    /// entries alone.
    proof fn suppression_determined(&self, other: &Self, target: Seq<char>, source: Seq<char>)
        requires
            self.same_config(other),
            self.entries() == other.entries(),
        ensures
            self.suppresses_bytes(target) == other.suppresses_bytes(target),
            self.suppresses_file(target, source) == other.suppresses_file(target, source),
    ;

    /// Declares a directory. A no-op for container formats that infer
    /// directories from entry paths; a real directory creation for the
    /// filesystem backend.
    fn add_directory(&mut self, path: &str) -> (r: Result<(), ArchiveError>)
        requires
            old(self).inv(),
        ensures
            final(self).inv(),
            final(self).same_config(old(self)),
            final(self).entries() == old(self).entries(),
    ;

    /// Writes `bytes` at `target` with the given unix permission bits and
    /// records the content's hash and byte length, unless the write is
    /// suppressed, in which case nothing is written and nothing is recorded.
    fn add_bytes_with_permissions(&mut self, target: &str, bytes: &[u8], permissions: u32) -> (r:
        Result<(), ArchiveError>)
        requires
            old(self).inv(),
        ensures
            final(self).inv(),
            final(self).same_config(old(self)),
            old(self).suppresses_bytes(target@) ==> r is Ok,
            r is Ok && old(self).suppresses_bytes(target@) ==> final(self).entries() == old(
                self,
            ).entries(),
            r is Ok && !old(self).suppresses_bytes(target@) ==> final(self).entries() == old(
                self,
            ).entries().push(
                EntryModel {
                    path: old(self).stored_path(target@),
                    content: bytes@,
                    mode: permissions,
                },
            ),
            r is Err ==> final(self).entries() == old(self).entries(),
    ;

    /// Writes `bytes` at `target` with default non-executable permissions.
    fn add_bytes(&mut self, target: &str, bytes: &[u8]) -> (r: Result<(), ArchiveError>)
        requires
            old(self).inv(),
        ensures
            final(self).inv(),
            final(self).same_config(old(self)),
            old(self).suppresses_bytes(target@) ==> r is Ok,
            r is Ok && old(self).suppresses_bytes(target@) ==> final(self).entries() == old(
                self,
            ).entries(),
            r is Ok && !old(self).suppresses_bytes(target@) ==> final(self).entries() == old(
                self,
            ).entries().push(
                EntryModel { path: old(self).stored_path(target@), content: bytes@, mode: 0o644 },
            ),
            r is Err ==> final(self).entries() == old(self).entries(),
    {
        self.add_bytes_with_permissions(target, bytes, 0o644)
    }

    /// Streams the source file's bytes to `target` under the same semantics as
    /// `add_bytes_with_permissions`. A failure to read is reported with the
    /// source path attached; a failure to write with the target path.
    fn add_file_with_permissions(&mut self, target: &str, source: &str, permissions: u32) -> (r:
        Result<(), ArchiveError>)
        requires
            old(self).inv(),
        ensures
            final(self).inv(),
            final(self).same_config(old(self)),
            r is Ok && old(self).suppresses_bytes(target@) ==> final(self).entries() == old(
                self,
            ).entries(),
            r is Ok && !old(self).suppresses_bytes(target@) ==> exists|b: Seq<u8>|
                final(self).entries() == old(self).entries().push(
                    EntryModel {
                        path: old(self).stored_path(target@),
                        content: b,
                        mode: permissions,
                    },
                ),
            r is Err ==> final(self).entries() == old(self).entries(),
    {
        match fsio::read_file(source) {
            Ok(buffer) => {
                let r = self.add_bytes_with_permissions(target, buffer.as_slice(), permissions);
                proof {
                    if r is Ok && !old(self).suppresses_bytes(target@) {
                        assert(final(self).entries() == old(self).entries().push(
                            EntryModel {
                                path: old(self).stored_path(target@),
                                content: buffer@,
                                mode: permissions,
                            },
                        ));
                    }
                }
                r
            },
            Err(message) => {
                proof {
                    self.config_refl();
                }
                Err(ArchiveError::Io { path: source.to_owned(), message })
            },
        }
    }

    /// Copies the source file to `target` with default permissions, under each
    /// backend's own suppression rule for file copies.
    fn add_file(&mut self, target: &str, source: &str) -> (r: Result<(), ArchiveError>)
        requires
            old(self).inv(),
        ensures
            final(self).inv(),
            final(self).same_config(old(self)),
            r is Ok && old(self).suppresses_file(target@, source@) ==> final(self).entries() == old(
                self,
            ).entries(),
            r is Ok && !old(self).suppresses_file(target@, source@) ==> exists|b: Seq<u8>, m: u32|
                final(self).entries() == old(self).entries().push(
                    EntryModel { path: old(self).stored_path(target@), content: b, mode: m },
                ),
            r is Err ==> final(self).entries() == old(self).entries(),
    ;
}

/// Every entry of an extension is one of the new entries.
pub proof fn lemma_push_extends(pre: Seq<EntryModel>, e: EntryModel)
    ensures
        entries_extend(pre, pre.push(e)),
        forall|p: Seq<char>|
            contains_path(pre.push(e), p) == (contains_path(pre, p) || e.path == p),
{
    assert(pre.push(e).take(pre.len() as int) =~= pre);
    assert forall|p: Seq<char>|
        contains_path(pre.push(e), p) == (contains_path(pre, p) || e.path == p) by {
        if contains_path(pre, p) {
            let i = choose|i: int| 0 <= i < pre.len() && pre[i].path == p;
            assert(pre.push(e)[i].path == p);
        }
        if e.path == p {
            assert(pre.push(e)[pre.len() as int].path == p);
        }
        if contains_path(pre.push(e), p) {
            let i = choose|i: int| 0 <= i < pre.push(e).len() && pre.push(e)[i].path == p;
            if i < pre.len() {
                assert(pre[i].path == p);
            }
        }
    }
}

/// What sits in the archive stays: extension keeps every written path.
pub proof fn lemma_extend_preserves_contains(a: Seq<EntryModel>, b: Seq<EntryModel>, p: Seq<char>)
    requires
        entries_extend(a, b),
        contains_path(a, p),
    ensures
        contains_path(b, p),
{
    let i = choose|i: int| 0 <= i < a.len() && a[i].path == p;
    assert(b.take(a.len() as int)[i] == a[i]);
    assert(b[i].path == p);
}

/// Extension keeps every written entry with its content.
pub proof fn lemma_extend_preserves_entry(
    a: Seq<EntryModel>,
    b: Seq<EntryModel>,
    p: Seq<char>,
    c: Seq<u8>,
)
    requires
        entries_extend(a, b),
        contains_entry(a, p, c),
    ensures
        contains_entry(b, p, c),
{
    let i = choose|i: int| 0 <= i < a.len() && a[i].path == p && a[i].content == c;
    assert(b.take(a.len() as int)[i] == a[i]);
    assert(b[i].path == p && b[i].content == c);
}

/// After one `add_bytes` step whose outcome is known, the target is present
/// when the filter admits it, and exactly the written bytes sit there when the
/// stored target path was free beforehand; nothing else is added.
pub proof fn lemma_bytes_step<W: ModuleWriter>(
    pre: &W,
    b: &W,
    a: &W,
    t: Seq<char>,
    c: Seq<u8>,
    m: u32,
)
    requires
        b.same_config(pre),
        b.suppresses_bytes(t) ==> a.entries() == b.entries(),
        !b.suppresses_bytes(t) ==> a.entries() == b.entries().push(
            EntryModel { path: b.stored_path(t), content: c, mode: m },
        ),
    ensures
        entries_extend(b.entries(), a.entries()),
        !pre.excluded(t) ==> contains_path(a.entries(), pre.stored_path(t)),
        !pre.excluded(t) && !contains_path(b.entries(), pre.stored_path(t)) ==> contains_entry(
            a.entries(),
            pre.stored_path(t),
            c,
        ),
        forall|p: Seq<char>| #![all_triggers]
            contains_path(a.entries(), p) ==> contains_path(b.entries(), p) || p
                == pre.stored_path(t),
        forall|p: Seq<char>, cc: Seq<u8>| #![all_triggers]
            contains_entry(b.entries(), p, cc) ==> contains_entry(a.entries(), p, cc),
        forall|p: Seq<char>, mm: u32| #![all_triggers]
            contains_file_at(b.entries(), p, mm) ==> contains_file_at(a.entries(), p, mm),
{
    b.config_properties(pre);
    b.suppression_bound(t);
    if b.suppresses_bytes(t) {
        assert(a.entries().take(b.entries().len() as int) =~= b.entries());
        if !pre.excluded(t) {
            assert(contains_path(b.entries(), b.stored_path(t)));
        }
    } else {
        let e = EntryModel { path: b.stored_path(t), content: c, mode: m };
        lemma_push_extends(b.entries(), e);
        assert(a.entries()[b.entries().len() as int] == e);
        assert(contains_entry(a.entries(), pre.stored_path(t), c));
        assert forall|p: Seq<char>, cc: Seq<u8>|
            contains_entry(b.entries(), p, cc) implies contains_entry(a.entries(), p, cc) by {
            lemma_extend_preserves_entry(b.entries(), a.entries(), p, cc);
        }
    }
    proof_file_at_preserved(b, a);
}

/// After one `add_file_with_permissions` step whose outcome is known, the
/// target is present when the filter admits it, and an entry with exactly the
/// requested permission bits sits there when the stored target path was free
/// beforehand; nothing else is added.
pub proof fn lemma_perm_step<W: ModuleWriter>(pre: &W, b: &W, a: &W, t: Seq<char>, m: u32)
    requires
        b.same_config(pre),
        b.suppresses_bytes(t) ==> a.entries() == b.entries(),
        !b.suppresses_bytes(t) ==> exists|c: Seq<u8>|
            a.entries() == b.entries().push(
                EntryModel { path: b.stored_path(t), content: c, mode: m },
            ),
    ensures
        entries_extend(b.entries(), a.entries()),
        !pre.excluded(t) ==> contains_path(a.entries(), pre.stored_path(t)),
        !pre.excluded(t) && !contains_path(b.entries(), pre.stored_path(t)) ==> contains_file_at(
            a.entries(),
            pre.stored_path(t),
            m,
        ),
        forall|p: Seq<char>| #![all_triggers]
            contains_path(a.entries(), p) ==> contains_path(b.entries(), p) || p
                == pre.stored_path(t),
        forall|p: Seq<char>, cc: Seq<u8>| #![all_triggers]
            contains_entry(b.entries(), p, cc) ==> contains_entry(a.entries(), p, cc),
        forall|p: Seq<char>, mm: u32| #![all_triggers]
            contains_file_at(b.entries(), p, mm) ==> contains_file_at(a.entries(), p, mm),
{
    b.config_properties(pre);
    b.suppression_bound(t);
    if b.suppresses_bytes(t) {
        assert(a.entries().take(b.entries().len() as int) =~= b.entries());
        if !pre.excluded(t) {
            assert(contains_path(b.entries(), b.stored_path(t)));
        }
    } else {
        let c = choose|c: Seq<u8>|
            a.entries() == b.entries().push(
                EntryModel { path: b.stored_path(t), content: c, mode: m },
            );
        let e = EntryModel { path: b.stored_path(t), content: c, mode: m };
        lemma_push_extends(b.entries(), e);
        assert(a.entries()[b.entries().len() as int] == e);
        assert forall|p: Seq<char>, cc: Seq<u8>|
            contains_entry(b.entries(), p, cc) implies contains_entry(a.entries(), p, cc) by {
            lemma_extend_preserves_entry(b.entries(), a.entries(), p, cc);
        }
        assert forall|p: Seq<char>, mm: u32|
            contains_file_at(b.entries(), p, mm) implies contains_file_at(a.entries(), p, mm) by {
            let i = choose|i: int|
                0 <= i < b.entries().len() && b.entries()[i].path == p && b.entries()[i].mode
                    == mm;
            assert(a.entries()[i] == b.entries()[i]);
        }
    }
}

/// After one `add_file` step whose outcome is known, the target is present
/// when the filter admits both ends and the source is not the backend's own
/// output.
pub proof fn lemma_file_step<W: ModuleWriter>(pre: &W, b: &W, a: &W, t: Seq<char>, s: Seq<char>)
    requires
        b.same_config(pre),
        b.suppresses_file(t, s) ==> a.entries() == b.entries(),
        !b.suppresses_file(t, s) ==> exists|c: Seq<u8>, m: u32|
            a.entries() == b.entries().push(
                EntryModel { path: b.stored_path(t), content: c, mode: m },
            ),
    ensures
        entries_extend(b.entries(), a.entries()),
        !pre.excluded(t) && !pre.excluded(s) && !pre.self_source(s) ==> contains_path(
            a.entries(),
            pre.stored_path(t),
        ),
        forall|p: Seq<char>| #![all_triggers]
            contains_path(a.entries(), p) ==> contains_path(b.entries(), p) || p
                == pre.stored_path(t),
        forall|p: Seq<char>, cc: Seq<u8>| #![all_triggers]
            contains_entry(b.entries(), p, cc) ==> contains_entry(a.entries(), p, cc),
        forall|p: Seq<char>, mm: u32| #![all_triggers]
            contains_file_at(b.entries(), p, mm) ==> contains_file_at(a.entries(), p, mm),
{
    b.config_properties(pre);
    b.file_suppression_bound(t, s);
    if b.suppresses_file(t, s) {
        assert(a.entries().take(b.entries().len() as int) =~= b.entries());
        if !pre.excluded(t) && !pre.excluded(s) && !pre.self_source(s) {
            assert(contains_path(b.entries(), b.stored_path(t)));
        }
    } else {
        let (c, m) = choose|c: Seq<u8>, m: u32|
            a.entries() == b.entries().push(
                EntryModel { path: b.stored_path(t), content: c, mode: m },
            );
        let e = EntryModel { path: b.stored_path(t), content: c, mode: m };
        lemma_push_extends(b.entries(), e);
        assert(a.entries()[b.entries().len() as int] == e);
        assert forall|p: Seq<char>, cc: Seq<u8>|
            contains_entry(b.entries(), p, cc) implies contains_entry(a.entries(), p, cc) by {
            lemma_extend_preserves_entry(b.entries(), a.entries(), p, cc);
        }
    }
    proof_file_at_preserved(b, a);
}

/// Permission facts survive any step that leaves the written entries alone or
/// pushes one more.
proof fn proof_file_at_preserved<W: ModuleWriter>(b: &W, a: &W)
    requires
        a.entries() == b.entries() || a.entries().len() == b.entries().len() + 1
            && a.entries().take(b.entries().len() as int) == b.entries(),
    ensures
        forall|p: Seq<char>, mm: u32| #![all_triggers]
            contains_file_at(b.entries(), p, mm) ==> contains_file_at(a.entries(), p, mm),
{
    assert forall|p: Seq<char>, mm: u32|
        contains_file_at(b.entries(), p, mm) implies contains_file_at(a.entries(), p, mm) by {
        let i = choose|i: int|
            0 <= i < b.entries().len() && b.entries()[i].path == p && b.entries()[i].mode == mm;
        if a.entries() != b.entries() {
            assert(a.entries().take(b.entries().len() as int)[i] == b.entries()[i]);
        }
        assert(a.entries()[i].path == p && a.entries()[i].mode == mm);
    }
}

/// Extension keeps every already-written entry at its index.
pub proof fn lemma_extend_preserves_index(a: Seq<EntryModel>, b: Seq<EntryModel>, i: int)
    requires
        entries_extend(a, b),
        0 <= i < a.len(),
    ensures
        b[i] == a[i],
{
    assert(b.take(a.len() as int)[i] == a[i]);
}

/// Extension of the written entries composes.
pub proof fn lemma_extend_trans(a: Seq<EntryModel>, b: Seq<EntryModel>, c: Seq<EntryModel>)
    requires
        entries_extend(a, b),
        entries_extend(b, c),
    ensures
        entries_extend(a, c),
{
    assert(c.take(a.len() as int) =~= b.take(a.len() as int));
}

} // verus!
