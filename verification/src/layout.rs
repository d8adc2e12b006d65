//! The layout assembly strategies: per binding style, decide where the
//! compiled artifact and its companions land inside the archive, and drive the
//! backend contract accordingly.
use vstd::prelude::*;
use vstd::string::StrSliceExecFns;
use vstd::string::StringExecFns;
use vstd::utf8::encode_utf8;
use crate::ArchiveError;
use crate::fsio;
use crate::fsio::EntryKind;
use crate::fsio::WalkedEntry;
use crate::metadata::PackageMetadata;
use crate::metadata::ProjectLayout;
use crate::metadata::data_dir_chars;
use crate::strutil::after_last;
use crate::strutil::before_last;
use crate::strutil::before_last_exec;
use crate::strutil::find_last;
use crate::strutil::contains_char;
use crate::strutil::is_prefix_of;
use crate::strutil::is_suffix_of;
use crate::strutil::ends_with;
use crate::strutil::joined;
use crate::strutil::path_join;
use crate::strutil::replace_char;
use crate::strutil::replaced;
use crate::strutil::strip_prefix_exec;
use crate::writer::EntryModel;
use crate::writer::ModuleWriter;
use crate::writer::contains_entry;
use crate::writer::contains_file_at;
use crate::writer::contains_path;
use crate::writer::entries_extend;
use crate::writer::lemma_bytes_step;
use crate::writer::lemma_extend_preserves_contains;
use crate::writer::lemma_extend_trans;
use crate::writer::lemma_file_step;
use crate::writer::lemma_perm_step;

verus! {

/// The glue loader written beside a foreign-function-interface artifact: it
/// exposes the shared library as `lib` through the generated `ffi` object.
pub open spec fn cffi_init_chars() -> Seq<char> {
    "__all__ = [\"lib\", \"ffi\"]\n\nimport os\nfrom .ffi import ffi\n\nlib = ffi.dlopen(os.path.join(os.path.dirname(__file__), 'native.so'))\ndel os\n"@
}

/// The fixed glue loader that exposes `lib`.
pub fn cffi_init_file() -> (r: &'static str)
    ensures
        r@ == cffi_init_chars(),
{
    "__all__ = [\"lib\", \"ffi\"]\n\nimport os\nfrom .ffi import ffi\n\nlib = ffi.dlopen(os.path.join(os.path.dirname(__file__), 'native.so'))\ndel os\n"
}

/// The generated re-export module for a bare native extension: it re-exports
/// every public name of the compiled module and forwards its docstring and its
/// `__all__` list if present.
pub open spec fn bindings_init_chars(module_name: Seq<char>) -> Seq<char> {
    "from ."@ + module_name + " import *\n\n__doc__ = "@ + module_name
        + ".__doc__\nif hasattr("@ + module_name + ", \"__all__\"):\n    __all__ = "@
        + module_name + ".__all__"@
}

/// Renders the re-export module for a bare native extension.
pub fn bindings_init_file(module_name: &str) -> (r: String)
    ensures
        r@ == bindings_init_chars(module_name@),
{
    let mut s = "from .".to_owned();
    s.append(module_name);
    s.append(" import *\n\n__doc__ = ");
    s.append(module_name);
    s.append(".__doc__\nif hasattr(");
    s.append(module_name);
    s.append(", \"__all__\"):\n    __all__ = ");
    s.append(module_name);
    s.append(".__all__");
    proof {
        assert(s@ =~= bindings_init_chars(module_name@));
    }
    s
}

/// The artifact's file name inside the package: the interpreter-specific name
/// when an interpreter is at hand, else the platform-generic stable-interface
/// name (`.abi3.so` on unix-like targets, `.pyd` elsewhere).
pub open spec fn so_name_chars(
    ext_name: Seq<char>,
    interpreter_library_name: Option<Seq<char>>,
    target_is_unix: bool,
) -> Seq<char> {
    match interpreter_library_name {
        Option::Some(n) => n,
        Option::None => if target_is_unix {
            ext_name + ".abi3.so"@
        } else {
            ext_name + ".pyd"@
        },
    }
}

/// Picks the artifact's file name as `so_name_chars` states it.
pub fn so_filename(
    ext_name: &str,
    interpreter_library_name: Option<&String>,
    target_is_unix: bool,
) -> (r: String)
    ensures
        r@ == so_name_chars(
            ext_name@,
            match interpreter_library_name {
                Option::Some(n) => Option::Some(n@),
                Option::None => Option::None,
            },
            target_is_unix,
        ),
{
    match interpreter_library_name {
        Some(n) => n.clone(),
        None => {
            let mut s = ext_name.to_owned();
            if target_is_unix {
                s.append(".abi3.so");
            } else {
                s.append(".pyd");
            }
            s
        },
    }
}

/// The standalone binary's target path:
/// `{name}-{version}.data/scripts/{bin_name}`.
pub open spec fn bin_target_chars(
    name: Seq<char>,
    version: Seq<char>,
    bin_name: Seq<char>,
) -> Seq<char> {
    joined(joined(data_dir_chars(name, version), "scripts"@), bin_name)
}

/// Adds the data directory with a scripts directory holding the binary,
/// marked executable for installers that understand per-category data
/// directories.
pub fn write_bin<W: ModuleWriter>(
    writer: &mut W,
    artifact: &str,
    metadata: &PackageMetadata,
    bin_name: &str,
) -> (r: Result<(), ArchiveError>)
    requires
        old(writer).inv(),
    ensures
        final(writer).inv(),
        final(writer).same_config(old(writer)),
        entries_extend(old(writer).entries(), final(writer).entries()),
        ({
            let t = bin_target_chars(metadata.name@, metadata.version@, bin_name@);
            &&& (r is Ok && old(writer).suppresses_bytes(t) ==> final(writer).entries() == old(
                writer,
            ).entries())
            &&& (r is Ok && !old(writer).suppresses_bytes(t) ==> exists|b: Seq<u8>|
                final(writer).entries() == old(writer).entries().push(
                    EntryModel { path: old(writer).stored_path(t), content: b, mode: 0o755 },
                ))
            &&& (r is Err ==> final(writer).entries() == old(writer).entries())
        }),
{
    let ghost pre = *writer;
    proof {
        pre.config_refl();
        assert(pre.entries().take(pre.entries().len() as int) =~= pre.entries());
    }
    let data_dir = path_join(metadata.data_dir_name().as_str(), "scripts");
    match writer.add_directory(data_dir.as_str()) {
        Ok(()) => {},
        Err(e) => {
            return Err(e);
        },
    }
    let ghost w0 = *writer;
    proof {
        w0.config_properties(&pre);
        pre.suppression_determined(&w0, bin_target_chars(metadata.name@, metadata.version@, bin_name@), artifact@);
    }
    let target = path_join(data_dir.as_str(), bin_name);
    // The artifact must carry the executable bit, so a plain file copy is not
    // enough.
    let r2 = writer.add_file_with_permissions(target.as_str(), artifact, 0o755);
    proof {
        W::config_trans(writer, &w0, &pre);
        if r2 is Ok && !pre.suppresses_bytes(
            bin_target_chars(metadata.name@, metadata.version@, bin_name@),
        ) {
            assert(final(writer).entries().take(pre.entries().len() as int) =~= pre.entries());
        }
    }
    match r2 {
        Ok(()) => Ok(()),
        Err(e) => Err(e),
    }
}

/// The launcher script's head, up to the binary's name.
pub open spec fn launcher_head_chars() -> Seq<char> {
    "from pathlib import Path\n\nfrom wasmtime import Store, Module, Engine, WasiConfig, Linker\n\nimport sysconfig\n\ndef main():\n    program_location = Path(sysconfig.get_path(\"scripts\")).joinpath(\""@
}

/// The launcher script's tail: a minimal sandboxed runtime with inherited
/// standard I/O, arguments and environment, and one pre-opened
/// current-directory capability.
pub open spec fn launcher_tail_chars() -> Seq<char> {
    "\")\n    engine = Engine()\n    store = Store(engine)\n    wasi = WasiConfig()\n    wasi.inherit_argv()\n    wasi.inherit_env()\n    wasi.inherit_stdout()\n    wasi.inherit_stderr()\n    wasi.inherit_stdin()\n    wasi.preopen_dir(\".\", \".\")\n    store.set_wasi(wasi)\n    linker = Linker(engine)\n    linker.define_wasi()\n    module = Module.from_file(store.engine, str(program_location))\n    linking1 = linker.instantiate(store, module)\n    start = linking1.exports(store).get(\"\") or linking1.exports(store)[\"_start\"]\n    start(store)\n\nif __name__ == '__main__':\n    main()\n"@
}

/// The whole launcher script for one binary.
pub open spec fn launcher_chars(bin_name: Seq<char>) -> Seq<char> {
    launcher_head_chars() + bin_name + launcher_tail_chars()
}

/// The launcher's target path: `{distribution}/{bin name, dashes as
/// underscores, extension replaced by .py}`.
pub open spec fn launcher_path_chars(name: Seq<char>, bin_name: Seq<char>) -> Seq<char> {
    joined(name, py_script_name(replaced(bin_name, '-', '_')))
}

/// A file name with its extension replaced by `.py` (appended when the name
/// has none).
pub open spec fn py_script_name(s: Seq<char>) -> Seq<char> {
    if contains_char(s, '.') {
        before_last(s, '.') + ".py"@
    } else {
        s + ".py"@
    }
}

fn py_script_name_exec(s: &str) -> (r: String)
    ensures
        r@ == py_script_name(s@),
{
    let mut out: String;
    match find_last(s, '.') {
        Some(_) => {
            out = before_last_exec(s, '.');
        },
        None => {
            out = s.to_owned();
        },
    }
    out.append(".py");
    out
}

/// Adds a wrapper script that starts the sandboxed binary through a minimal
/// runtime; the binary itself is written separately by `write_bin`.
pub fn write_wasm_launcher<W: ModuleWriter>(
    writer: &mut W,
    metadata: &PackageMetadata,
    bin_name: &str,
) -> (r: Result<(), ArchiveError>)
    requires
        old(writer).inv(),
    ensures
        final(writer).inv(),
        final(writer).same_config(old(writer)),
        entries_extend(old(writer).entries(), final(writer).entries()),
        ({
            let t = launcher_path_chars(metadata.name@, bin_name@);
            &&& (r is Ok && old(writer).suppresses_bytes(t) ==> final(writer).entries() == old(
                writer,
            ).entries())
            &&& (r is Ok && !old(writer).suppresses_bytes(t) ==> final(writer).entries() == old(
                writer,
            ).entries().push(
                EntryModel {
                    path: old(writer).stored_path(t),
                    content: encode_utf8(launcher_chars(bin_name@)),
                    mode: 0o755,
                },
            ))
            &&& (r is Err ==> final(writer).entries() == old(writer).entries())
        }),
{
    let ghost pre = *writer;
    proof {
        assert(pre.entries().take(pre.entries().len() as int) =~= pre.entries());
    }
    let mut script = "from pathlib import Path\n\nfrom wasmtime import Store, Module, Engine, WasiConfig, Linker\n\nimport sysconfig\n\ndef main():\n    program_location = Path(sysconfig.get_path(\"scripts\")).joinpath(\"".to_owned();
    script.append(bin_name);
    script.append(
        "\")\n    engine = Engine()\n    store = Store(engine)\n    wasi = WasiConfig()\n    wasi.inherit_argv()\n    wasi.inherit_env()\n    wasi.inherit_stdout()\n    wasi.inherit_stderr()\n    wasi.inherit_stdin()\n    wasi.preopen_dir(\".\", \".\")\n    store.set_wasi(wasi)\n    linker = Linker(engine)\n    linker.define_wasi()\n    module = Module.from_file(store.engine, str(program_location))\n    linking1 = linker.instantiate(store, module)\n    start = linking1.exports(store).get(\"\") or linking1.exports(store)[\"_start\"]\n    start(store)\n\nif __name__ == '__main__':\n    main()\n",
    );
    proof {
        assert(script@ =~= launcher_chars(bin_name@));
    }
    let script_name = py_script_name_exec(replace_char(bin_name, '-', '_').as_str());
    let launcher_path = path_join(metadata.name.as_str(), script_name.as_str());
    // The launcher must carry the executable bit, so a plain byte write is not
    // enough.
    let r = writer.add_bytes_with_permissions(launcher_path.as_str(), script.as_str().as_bytes(), 0o755);
    proof {
        if r is Ok && !pre.suppresses_bytes(launcher_path_chars(metadata.name@, bin_name@)) {
            assert(final(writer).entries().take(pre.entries().len() as int) =~= pre.entries());
        }
    }
    r
}

/// What `copy_python_tree` decides for one walked entry of the
/// interpreted-source tree.
pub enum TreeAction {
    /// Declare the directory at this archive-relative path.
    AddDirectory(String),
    /// Copy the file at the source path (second) to the relative path (first).
    AddFile(String, String),
    /// A native shared library: a stale copy from an earlier in-place build
    /// must not leak into a packaged build.
    SkipNative,
}

/// The decision for one walked entry: its path relative to `parent`, a
/// directory declaration for directories, a copy for files that are not
/// native shared libraries, and an error when the entry does not lie under
/// `parent`.
pub fn python_tree_action(parent: &str, entry_path: &str, kind: EntryKind) -> (r: Result<
    TreeAction,
    ArchiveError,
>)
    ensures
        ({
            let rel = entry_path@.skip(parent@.len() as int + 1);
            match r {
                Ok(a) => is_prefix_of(parent@ + "/"@, entry_path@) && match a {
                    TreeAction::AddDirectory(d) => kind == EntryKind::Directory && d@ == rel,
                    TreeAction::AddFile(t, s) => kind != EntryKind::Directory && !is_suffix_of(
                        ".so"@,
                        rel,
                    ) && t@ == rel && s@ == entry_path@,
                    TreeAction::SkipNative => kind != EntryKind::Directory && is_suffix_of(
                        ".so"@,
                        rel,
                    ),
                },
                Err(_) => !is_prefix_of(parent@ + "/"@, entry_path@),
            }
        }),
{
    let mut prefix = parent.to_owned();
    prefix.append("/");
    proof {
        reveal_strlit("/");
    }
    match strip_prefix_exec(entry_path, prefix.as_str()) {
        Some(rel) => {
            proof {
                assert(rel@ == entry_path@.skip(parent@.len() as int + 1));
            }
            if matches!(kind, EntryKind::Directory) {
                Ok(TreeAction::AddDirectory(rel))
            } else if ends_with(rel.as_str(), ".so") {
                Ok(TreeAction::SkipNative)
            } else {
                Ok(TreeAction::AddFile(rel, entry_path.to_owned()))
            }
        },
        None => {
            let mut message = "path does not lie under the source tree: ".to_owned();
            message.append(entry_path);
            Err(ArchiveError::Layout { message })
        },
    }
}

/// The archive-relative path of a walked entry under `parent`.
pub open spec fn tree_rel(parent: Seq<char>, path: Seq<char>) -> Seq<char> {
    path.skip(parent.len() as int + 1)
}

/// The condition under which a copied file is owed an archive entry: the
/// backend admits the relative target and the source, and the source is not
/// the backend's own output.
pub open spec fn copy_admitted<W: ModuleWriter>(w: W, rel: Seq<char>, source: Seq<char>) -> bool {
    !w.excluded(rel) && !w.excluded(source) && !w.self_source(source)
}

/// Mirrors the walked interpreted-source tree into the archive, relative to
/// `parent` (the tree's parent directory): directories are declared, files are
/// copied, native shared libraries are skipped. On success every walked entry
/// lay under `parent`, and every copied file the backend admits sits in the
/// archive at its mirrored path. Nothing else enters the archive: every added
/// path is the stored mirror of some walked non-library file — in particular,
/// no `.so` file ever leaks into the package through this copier.
pub fn copy_python_tree<W: ModuleWriter>(
    writer: &mut W,
    parent: &str,
    walked: &Vec<WalkedEntry>,
) -> (r: Result<(), ArchiveError>)
    requires
        old(writer).inv(),
    ensures
        final(writer).inv(),
        final(writer).same_config(old(writer)),
        entries_extend(old(writer).entries(), final(writer).entries()),
        r is Ok ==> forall|k: int| #![all_triggers]
            0 <= k < walked@.len() ==> is_prefix_of(parent@ + "/"@, walked@[k].path@),
        r is Ok ==> forall|k: int| #![all_triggers]
            0 <= k < walked@.len() && walked@[k].kind != EntryKind::Directory && !is_suffix_of(
                ".so"@,
                tree_rel(parent@, walked@[k].path@),
            ) && copy_admitted(
                *old(writer),
                tree_rel(parent@, walked@[k].path@),
                walked@[k].path@,
            ) ==> contains_path(
                final(writer).entries(),
                old(writer).stored_path(tree_rel(parent@, walked@[k].path@)),
            ),
        forall|p: Seq<char>| #![all_triggers]
            contains_path(final(writer).entries(), p) ==> contains_path(
                old(writer).entries(),
                p,
            ) || exists|k: int|
                0 <= k < walked@.len() && walked@[k].kind != EntryKind::Directory && !is_suffix_of(
                    ".so"@,
                    tree_rel(parent@, walked@[k].path@),
                ) && p == old(writer).stored_path(tree_rel(parent@, walked@[k].path@)),
{
    let ghost pre = *writer;
    proof {
        pre.config_refl();
        assert(pre.entries().take(pre.entries().len() as int) =~= pre.entries());
    }
    let mut i: usize = 0;
    while i < walked.len()
        invariant
            pre == *old(writer),
            writer.inv(),
            writer.same_config(&pre),
            entries_extend(pre.entries(), writer.entries()),
            i <= walked@.len(),
            forall|k: int| #![all_triggers]
                0 <= k < i ==> is_prefix_of(parent@ + "/"@, walked@[k].path@),
            forall|k: int| #![all_triggers]
                0 <= k < i && walked@[k].kind != EntryKind::Directory && !is_suffix_of(
                    ".so"@,
                    tree_rel(parent@, walked@[k].path@),
                ) && copy_admitted(pre, tree_rel(parent@, walked@[k].path@), walked@[k].path@)
                    ==> contains_path(
                    writer.entries(),
                    pre.stored_path(tree_rel(parent@, walked@[k].path@)),
                ),
            forall|p: Seq<char>| #![all_triggers]
                contains_path(writer.entries(), p) ==> contains_path(pre.entries(), p) || exists|
                    k: int,
                |
                    0 <= k < i && walked@[k].kind != EntryKind::Directory && !is_suffix_of(
                        ".so"@,
                        tree_rel(parent@, walked@[k].path@),
                    ) && p == pre.stored_path(tree_rel(parent@, walked@[k].path@)),
        decreases walked@.len() - i,
    {
        let ghost wl = *writer;
        let entry = &walked[i];
        let action = match python_tree_action(parent, entry.path.as_str(), entry.kind) {
            Ok(action) => action,
            Err(e) => {
                return Err(e);
            },
        };
        match &action {
            TreeAction::AddDirectory(d) => {
                let rd = writer.add_directory(d.as_str());
                proof {
                    W::config_trans(writer, &wl, &pre);
                }
                match rd {
                    Ok(()) => {},
                    Err(e) => {
                        return Err(e);
                    },
                }
            },
            TreeAction::AddFile(t, source) => {
                let rf = writer.add_file(t.as_str(), source.as_str());
                proof {
                    W::config_trans(writer, &wl, &pre);
                    if rf is Ok {
                        lemma_file_step(&pre, &wl, writer, t@, source@);
                    }
                }
                match rf {
                    Ok(()) => {},
                    Err(e) => {
                        return Err(e);
                    },
                }
            },
            TreeAction::SkipNative => {},
        }
        proof {
            if writer.entries() == wl.entries() {
                assert(writer.entries().take(wl.entries().len() as int) =~= wl.entries());
            }
            lemma_extend_trans(pre.entries(), wl.entries(), writer.entries());
            assert forall|k: int|
                0 <= k < i + 1 && walked@[k].kind != EntryKind::Directory && !is_suffix_of(
                    ".so"@,
                    tree_rel(parent@, walked@[k].path@),
                ) && copy_admitted(
                    pre,
                    tree_rel(parent@, walked@[k].path@),
                    walked@[k].path@,
                ) implies contains_path(
                writer.entries(),
                pre.stored_path(tree_rel(parent@, walked@[k].path@)),
            ) by {
                if k < i {
                    lemma_extend_preserves_contains(
                        wl.entries(),
                        writer.entries(),
                        pre.stored_path(tree_rel(parent@, walked@[k].path@)),
                    );
                }
            }
            assert forall|p: Seq<char>|
                contains_path(writer.entries(), p) implies contains_path(pre.entries(), p)
                || exists|k: int|
                    0 <= k < i + 1 && walked@[k].kind != EntryKind::Directory && !is_suffix_of(
                        ".so"@,
                        tree_rel(parent@, walked@[k].path@),
                    ) && p == pre.stored_path(tree_rel(parent@, walked@[k].path@)) by {
                if !contains_path(wl.entries(), p) {
                    // Only the file arm pushes, at entry i's mirrored path.
                    assert(p == pre.stored_path(tree_rel(parent@, walked@[i as int].path@)));
                }
            }
        }
        i = i + 1;
    }
    Ok(())
}

/// Copies the entries matched by one extra include pattern, relative to
/// `parent`: directories are declared, files are copied. On success every
/// matched entry lay under `parent`, and every matched file the backend admits
/// sits in the archive at its mirrored path; nothing but mirrors of matched
/// files is added.
pub fn copy_matched_entries<W: ModuleWriter>(
    writer: &mut W,
    parent: &str,
    matched: &Vec<WalkedEntry>,
) -> (r: Result<(), ArchiveError>)
    requires
        old(writer).inv(),
    ensures
        final(writer).inv(),
        final(writer).same_config(old(writer)),
        entries_extend(old(writer).entries(), final(writer).entries()),
        r is Ok ==> forall|k: int| #![all_triggers]
            0 <= k < matched@.len() ==> is_prefix_of(parent@ + "/"@, matched@[k].path@),
        r is Ok ==> forall|k: int| #![all_triggers]
            0 <= k < matched@.len() && matched@[k].kind != EntryKind::Directory && copy_admitted(
                *old(writer),
                tree_rel(parent@, matched@[k].path@),
                matched@[k].path@,
            ) ==> contains_path(
                final(writer).entries(),
                old(writer).stored_path(tree_rel(parent@, matched@[k].path@)),
            ),
        forall|p: Seq<char>| #![all_triggers]
            contains_path(final(writer).entries(), p) ==> contains_path(
                old(writer).entries(),
                p,
            ) || exists|k: int|
                0 <= k < matched@.len() && matched@[k].kind != EntryKind::Directory && p == old(
                    writer,
                ).stored_path(tree_rel(parent@, matched@[k].path@)),
{
    let ghost pre = *writer;
    proof {
        pre.config_refl();
        assert(pre.entries().take(pre.entries().len() as int) =~= pre.entries());
    }
    let mut k: usize = 0;
    while k < matched.len()
        invariant
            pre == *old(writer),
            writer.inv(),
            writer.same_config(&pre),
            entries_extend(pre.entries(), writer.entries()),
            k <= matched@.len(),
            forall|j: int| #![all_triggers]
                0 <= j < k ==> is_prefix_of(parent@ + "/"@, matched@[j].path@),
            forall|j: int| #![all_triggers]
                0 <= j < k && matched@[j].kind != EntryKind::Directory && copy_admitted(
                    pre,
                    tree_rel(parent@, matched@[j].path@),
                    matched@[j].path@,
                ) ==> contains_path(
                    writer.entries(),
                    pre.stored_path(tree_rel(parent@, matched@[j].path@)),
                ),
            forall|p: Seq<char>| #![all_triggers]
                contains_path(writer.entries(), p) ==> contains_path(pre.entries(), p) || exists|
                    j: int,
                |
                    0 <= j < k && matched@[j].kind != EntryKind::Directory && p == pre.stored_path(
                        tree_rel(parent@, matched@[j].path@),
                    ),
        decreases matched@.len() - k,
    {
        let ghost wl = *writer;
        let entry = &matched[k];
        let mut prefix = parent.to_owned();
        prefix.append("/");
        proof {
            reveal_strlit("/");
        }
        let rel = match strip_prefix_exec(entry.path.as_str(), prefix.as_str()) {
            Some(rel) => rel,
            None => {
                let mut message = "matched path does not lie under the project: ".to_owned();
                message.append(entry.path.as_str());
                return Err(ArchiveError::Layout { message });
            },
        };
        proof {
            assert(rel@ == tree_rel(parent@, entry.path@));
        }
        if matches!(entry.kind, EntryKind::Directory) {
            let rd = writer.add_directory(rel.as_str());
            proof {
                W::config_trans(writer, &wl, &pre);
            }
            match rd {
                Ok(()) => {},
                Err(e) => {
                    return Err(e);
                },
            }
        } else {
            let rf = writer.add_file(rel.as_str(), entry.path.as_str());
            proof {
                W::config_trans(writer, &wl, &pre);
                if rf is Ok {
                    lemma_file_step(&pre, &wl, writer, rel@, entry.path@);
                }
            }
            match rf {
                Ok(()) => {},
                Err(e) => {
                    return Err(e);
                },
            }
        }
        proof {
            if writer.entries() == wl.entries() {
                assert(writer.entries().take(wl.entries().len() as int) =~= wl.entries());
            }
            lemma_extend_trans(pre.entries(), wl.entries(), writer.entries());
            assert forall|j: int|
                0 <= j < k + 1 && matched@[j].kind != EntryKind::Directory && copy_admitted(
                    pre,
                    tree_rel(parent@, matched@[j].path@),
                    matched@[j].path@,
                ) implies contains_path(
                writer.entries(),
                pre.stored_path(tree_rel(parent@, matched@[j].path@)),
            ) by {
                if j < k {
                    lemma_extend_preserves_contains(
                        wl.entries(),
                        writer.entries(),
                        pre.stored_path(tree_rel(parent@, matched@[j].path@)),
                    );
                }
            }
            assert forall|p: Seq<char>|
                contains_path(writer.entries(), p) implies contains_path(pre.entries(), p)
                || exists|j: int|
                    0 <= j < k + 1 && matched@[j].kind != EntryKind::Directory && p
                        == pre.stored_path(tree_rel(parent@, matched@[j].path@)) by {
                if !contains_path(wl.entries(), p) {
                    assert(p == pre.stored_path(tree_rel(parent@, matched@[k as int].path@)));
                }
            }
        }
        k = k + 1;
    }
    Ok(())
}

/// Adds the interpreted-source part of a mixed project: walks the source tree
/// (keeping hidden entries) and mirrors it through `copy_python_tree`, then
/// copies the files matched by the caller-declared extra include glob
/// patterns through `copy_matched_entries`. The two copy functions carry the
/// per-entry contracts; this shell only enumerates the disk.
pub fn write_python_part<W: ModuleWriter>(
    writer: &mut W,
    python_module: &str,
    include_patterns: &Vec<String>,
) -> (r: Result<(), ArchiveError>)
    requires
        old(writer).inv(),
    ensures
        final(writer).inv(),
        final(writer).same_config(old(writer)),
        entries_extend(old(writer).entries(), final(writer).entries()),
{
    let ghost pre = *writer;
    proof {
        pre.config_refl();
        assert(pre.entries().take(pre.entries().len() as int) =~= pre.entries());
    }
    let parent = before_last_exec(python_module, '/');
    let walked = match fsio::walk_dir(python_module, true, true) {
        Ok(walked) => walked,
        Err(message) => {
            return Err(ArchiveError::Io { path: python_module.to_owned(), message });
        },
    };
    let rt = copy_python_tree(writer, parent.as_str(), &walked);
    proof {
        W::config_trans(writer, &pre, &pre);
    }
    match rt {
        Ok(()) => {},
        Err(e) => {
            return Err(e);
        },
    }
    // The caller-declared extra include patterns, for files outside the
    // normal tree.
    let mut p: usize = 0;
    while p < include_patterns.len()
        invariant
            pre == *old(writer),
            writer.inv(),
            writer.same_config(&pre),
            entries_extend(pre.entries(), writer.entries()),
        decreases include_patterns@.len() - p,
    {
        let ghost wl = *writer;
        let pattern = path_join(parent.as_str(), include_patterns[p].as_str());
        let matched = match fsio::glob_paths(pattern.as_str()) {
            Ok(matched) => matched,
            Err(message) => {
                return Err(ArchiveError::Layout { message });
            },
        };
        let rm = copy_matched_entries(writer, parent.as_str(), &matched);
        proof {
            W::config_trans(writer, &wl, &pre);
            lemma_extend_trans(pre.entries(), wl.entries(), writer.entries());
        }
        match rm {
            Ok(()) => {},
            Err(e) => {
                return Err(e);
            },
        }
        p = p + 1;
    }
    Ok(())
}

/// True when, at some cut point between `pre` and `post`, either the path `p`
/// was already occupied (first writer wins for backends that deduplicate), or
/// the entry at `p` carrying the executable bits was appended there as the
/// final write.
pub open spec fn placed_executable(
    pre: Seq<EntryModel>,
    post: Seq<EntryModel>,
    p: Seq<char>,
) -> bool {
    exists|mid: Seq<EntryModel>|
        entries_extend(pre, mid) && entries_extend(mid, post) && (contains_path(mid, p) || exists|
            c: Seq<u8>,
        |
            post == mid.push(EntryModel { path: p, content: c, mode: 0o755 }))
}

/// Where the compiled artifact lands: beside the interpreted-source tree for a
/// mixed project, or inside the synthetic top-level package for a bare
/// extension.
pub open spec fn bindings_so_target(
    layout: ProjectLayout,
    module_name: Seq<char>,
    so_name: Seq<char>,
) -> Seq<char> {
    match layout.python_module {
        Option::Some(pm) => joined(
            layout.rust_module@.skip(before_last(pm@, '/').len() as int + 1),
            so_name,
        ),
        Option::None => joined(module_name, so_name),
    }
}

/// Looks for a bundled type stub `{module_name}.pyi` beside the compiled
/// module; whether one exists depends on the disk.
pub fn find_type_stub(rust_module: &str, module_name: &str) -> (r: Option<String>)
    ensures
        r matches Some(p) ==> p@ == joined(rust_module@, module_name@ + ".pyi"@),
{
    let mut stub_name = module_name.to_owned();
    stub_name.append(".pyi");
    let type_stub = path_join(rust_module, stub_name.as_str());
    if fsio::path_exists(type_stub.as_str()) {
        Some(type_stub)
    } else {
        None
    }
}

/// Copies the compiled artifact into the package as the native-extension
/// binding style asks: into the existing source tree for an editable install
/// (no archive entry at all), beside the copied-in source tree for a mixed
/// project, or into a synthetic top-level package with a generated re-export
/// file, the bundled type stub handed in as `type_stub` (see
/// `find_type_stub`), and the stub's marker file.
pub fn write_bindings_module<W: ModuleWriter>(
    writer: &mut W,
    project_layout: &ProjectLayout,
    module_name: &str,
    artifact: &str,
    interpreter_library_name: Option<&String>,
    target_is_unix: bool,
    editable: bool,
    include_patterns: &Vec<String>,
    type_stub: Option<&String>,
) -> (r: Result<(), ArchiveError>)
    requires
        old(writer).inv(),
    ensures
        final(writer).inv(),
        final(writer).same_config(old(writer)),
        entries_extend(old(writer).entries(), final(writer).entries()),
        r is Ok && editable && project_layout.python_module is Some ==> final(writer).entries()
            == old(writer).entries(),
        ({
            let so_name = so_name_chars(
                project_layout.extension_name@,
                match interpreter_library_name {
                    Option::Some(n) => Option::Some(n@),
                    Option::None => Option::None,
                },
                target_is_unix,
            );
            let t = bindings_so_target(*project_layout, module_name@, so_name);
            let init_t = joined(module_name@, "__init__.py"@);
            let stub_t = joined(module_name@, "__init__.pyi"@);
            let marker_t = joined(module_name@, "py.typed"@);
            // The artifact is placed wherever the filter admits it.
            &&& (r is Ok && !(editable && project_layout.python_module is Some) && !old(
                writer,
            ).excluded(t) ==> contains_path(final(writer).entries(), old(writer).stored_path(t)))
            // Beside a copied-in source tree, the artifact write is the last
            // one: either its path was already taken at that point, or the
            // entry appended there carries the executable bits.
            &&& (r is Ok && project_layout.python_module is Some && !editable && !old(
                writer,
            ).excluded(t) ==> placed_executable(
                old(writer).entries(),
                final(writer).entries(),
                old(writer).stored_path(t),
            ))
            // In the synthetic package, where its stored path was free, the
            // artifact entry carries the executable bits.
            &&& (r is Ok && project_layout.python_module is None && !old(writer).excluded(t)
                && !contains_path(old(writer).entries(), old(writer).stored_path(t)) && old(
                writer,
            ).stored_path(t) != old(writer).stored_path(init_t) && old(writer).stored_path(t)
                != old(writer).stored_path(stub_t) && old(writer).stored_path(t) != old(
                writer,
            ).stored_path(marker_t) ==> contains_file_at(
                final(writer).entries(),
                old(writer).stored_path(t),
                0o755,
            ))
            // The generated re-export module, with exactly its stated text.
            &&& (r is Ok && project_layout.python_module is None && !old(writer).excluded(init_t)
                && !contains_path(old(writer).entries(), old(writer).stored_path(init_t))
                ==> contains_entry(
                final(writer).entries(),
                old(writer).stored_path(init_t),
                encode_utf8(bindings_init_chars(module_name@)),
            ))
            // The bundled type stub and its marker, present iff a stub was
            // handed in and the filter admits them.
            &&& (r is Ok && project_layout.python_module is None && (match type_stub {
                Option::Some(stub) => !old(writer).excluded(stub_t) && !old(writer).excluded(stub@)
                    && !old(writer).self_source(stub@),
                Option::None => false,
            }) ==> contains_path(final(writer).entries(), old(writer).stored_path(stub_t)))
            &&& (r is Ok && project_layout.python_module is None && type_stub is Some && !old(
                writer,
            ).excluded(marker_t) ==> contains_path(
                final(writer).entries(),
                old(writer).stored_path(marker_t),
            ))
            // The marker is empty where its stored path was free.
            &&& (r is Ok && project_layout.python_module is None && type_stub is Some && !old(
                writer,
            ).excluded(marker_t) && !contains_path(
                old(writer).entries(),
                old(writer).stored_path(marker_t),
            ) && old(writer).stored_path(marker_t) != old(writer).stored_path(init_t) && old(
                writer,
            ).stored_path(marker_t) != old(writer).stored_path(stub_t) ==> contains_entry(
                final(writer).entries(),
                old(writer).stored_path(marker_t),
                Seq::<u8>::empty(),
            ))
            // In the synthetic package nothing but the named targets is
            // added; without a stub, neither the stub nor its marker appears.
            &&& (r is Ok && project_layout.python_module is None ==> forall|p: Seq<char>|
                #![all_triggers]
                contains_path(final(writer).entries(), p) ==> contains_path(
                    old(writer).entries(),
                    p,
                ) || p == old(writer).stored_path(init_t) || (type_stub is Some && (p == old(
                    writer,
                ).stored_path(stub_t) || p == old(writer).stored_path(marker_t))) || p == old(
                    writer,
                ).stored_path(t))
        }),
{
    let ghost pre = *writer;
    proof {
        pre.config_refl();
        assert(pre.entries().take(pre.entries().len() as int) =~= pre.entries());
    }
    let so_name = so_filename(
        project_layout.extension_name.as_str(),
        interpreter_library_name,
        target_is_unix,
    );
    match &project_layout.python_module {
        Some(python_module) => {
            if editable {
                let target = path_join(project_layout.rust_module.as_str(), so_name.as_str());
                // Remove any stale artifact first: overwriting the mapped file
                // in place could crash a process still holding it.
                let removed = fsio::remove_file(target.as_str());
                match removed {
                    _ => {},
                }
                match fsio::copy_file(artifact, target.as_str()) {
                    Ok(()) => Ok(()),
                    Err(message) => Err(ArchiveError::Io { path: target, message }),
                }
            } else {
                match write_python_part(writer, python_module.as_str(), include_patterns) {
                    Ok(()) => {},
                    Err(e) => {
                        return Err(e);
                    },
                }
                let ghost w0 = *writer;
                let parent = before_last_exec(python_module.as_str(), '/');
                let mut prefix = parent.clone();
                prefix.append("/");
                proof {
                    reveal_strlit("/");
                }
                let relative = match strip_prefix_exec(
                    project_layout.rust_module.as_str(),
                    prefix.as_str(),
                ) {
                    Some(rel) => rel,
                    None => {
                        let mut message =
                            "the compiled module does not lie beside the source tree: ".to_owned();
                        message.append(project_layout.rust_module.as_str());
                        return Err(ArchiveError::Layout { message });
                    },
                };
                let target = path_join(relative.as_str(), so_name.as_str());
                let r2 = writer.add_file_with_permissions(target.as_str(), artifact, 0o755);
                proof {
                    W::config_trans(writer, &w0, &pre);
                    if r2 is Ok {
                        lemma_perm_step(&pre, &w0, writer, target@, 0o755);
                        lemma_extend_trans(pre.entries(), w0.entries(), writer.entries());
                        if !pre.excluded(target@) {
                            // Witness: the state just before the artifact
                            // write. Either its path was taken there, or the
                            // executable entry was pushed as the final write.
                            let midw = w0.entries();
                            w0.config_properties(&pre);
                            w0.suppression_bound(target@);
                            if w0.suppresses_bytes(target@) {
                                assert(contains_path(midw, pre.stored_path(target@)));
                                assert(writer.entries().take(midw.len() as int) =~= midw);
                            }
                            assert(entries_extend(midw, writer.entries()));
                            assert(placed_executable(
                                pre.entries(),
                                writer.entries(),
                                pre.stored_path(target@),
                            ));
                        }
                    }
                }
                match r2 {
                    Ok(()) => Ok(()),
                    Err(e) => Err(e),
                }
            }
        },
        None => {
            match writer.add_directory(module_name) {
                Ok(()) => {},
                Err(e) => {
                    return Err(e);
                },
            }
            let ghost w0 = *writer;
            proof {
                w0.config_properties(&pre);
            }
            // Re-export the shared library as if it were the top level module.
            let init_path = path_join(module_name, "__init__.py");
            let init_contents = bindings_init_file(module_name);
            let r1 = writer.add_bytes(init_path.as_str(), init_contents.as_str().as_bytes());
            proof {
                W::config_trans(writer, &w0, &pre);
                if r1 is Ok {
                    lemma_bytes_step(
                        &pre,
                        &w0,
                        writer,
                        init_path@,
                        encode_utf8(bindings_init_chars(module_name@)),
                        0o644,
                    );
                    lemma_extend_trans(pre.entries(), w0.entries(), writer.entries());
                }
            }
            match r1 {
                Ok(()) => {},
                Err(e) => {
                    return Err(e);
                },
            }
            let ghost w1 = *writer;
            if let Some(stub) = type_stub {
                let stub_target = path_join(module_name, "__init__.pyi");
                let ra = writer.add_file(stub_target.as_str(), stub.as_str());
                proof {
                    W::config_trans(writer, &w1, &pre);
                    if ra is Ok {
                        lemma_file_step(&pre, &w1, writer, stub_target@, stub@);
                        lemma_extend_trans(pre.entries(), w1.entries(), writer.entries());
                    }
                }
                match ra {
                    Ok(()) => {},
                    Err(e) => {
                        return Err(e);
                    },
                }
                let ghost wa = *writer;
                let marker_path = path_join(module_name, "py.typed");
                let marker: Vec<u8> = Vec::new();
                let rb = writer.add_bytes(marker_path.as_str(), marker.as_slice());
                proof {
                    W::config_trans(writer, &wa, &pre);
                    if rb is Ok {
                        lemma_bytes_step(&pre, &wa, writer, marker_path@, Seq::empty(), 0o644);
                        lemma_extend_trans(pre.entries(), wa.entries(), writer.entries());
                    }
                }
                match rb {
                    Ok(()) => {},
                    Err(e) => {
                        return Err(e);
                    },
                }
            }
            let ghost w2 = *writer;
            let so_target = path_join(module_name, so_name.as_str());
            let r3 = writer.add_file_with_permissions(so_target.as_str(), artifact, 0o755);
            proof {
                W::config_trans(writer, &w2, &pre);
                if r3 is Ok {
                    lemma_perm_step(&pre, &w2, writer, so_target@, 0o755);
                    lemma_extend_trans(pre.entries(), w2.entries(), writer.entries());
                    if !pre.excluded(so_target@) && !contains_path(
                        pre.entries(),
                        pre.stored_path(so_target@),
                    ) && pre.stored_path(so_target@) != pre.stored_path(init_path@)
                        && pre.stored_path(so_target@) != pre.stored_path(
                        joined(module_name@, "__init__.pyi"@),
                    ) && pre.stored_path(so_target@) != pre.stored_path(
                        joined(module_name@, "py.typed"@),
                    ) {
                        // Nothing earlier in this call landed at the
                        // artifact's stored path, so the write was admitted.
                        assert(!contains_path(w2.entries(), pre.stored_path(so_target@)));
                    }
                }
            }
            match r3 {
                Ok(()) => Ok(()),
                Err(e) => Err(e),
            }
        },
    }
}

/// The directory inside the archive that holds the foreign-function-interface
/// module's files.
pub open spec fn cffi_module_dir(layout: ProjectLayout, module_name: Seq<char>) -> Seq<char> {
    match layout.python_module {
        Option::Some(pm) => joined(
            layout.rust_module@.skip(before_last(pm@, '/').len() as int + 1),
            layout.extension_name@,
        ),
        Option::None => module_name,
    }
}

/// Creates the foreign-function-interface module: the shared library under the
/// fixed name `native.so`, the generated declaration source as `ffi.py`, and
/// the fixed glue loader as `__init__.py`, plus the bundled type stub handed
/// in as `type_stub` (see `find_type_stub`) for a bare extension. The
/// declaration source is produced beforehand by the binding-declaration
/// generator protocol and handed in as text.
pub fn write_cffi_module<W: ModuleWriter>(
    writer: &mut W,
    project_layout: &ProjectLayout,
    module_name: &str,
    artifact: &str,
    cffi_declarations: &str,
    editable: bool,
    include_patterns: &Vec<String>,
    type_stub: Option<&String>,
) -> (r: Result<(), ArchiveError>)
    requires
        old(writer).inv(),
    ensures
        final(writer).inv(),
        final(writer).same_config(old(writer)),
        entries_extend(old(writer).entries(), final(writer).entries()),
        ({
            let d = cffi_module_dir(*project_layout, module_name@);
            let init_t = joined(d, "__init__.py"@);
            let ffi_t = joined(d, "ffi.py"@);
            let so_t = joined(d, "native.so"@);
            let stub_t = joined(d, "__init__.pyi"@);
            let marker_t = joined(d, "py.typed"@);
            let bare = project_layout.python_module is None;
            // Wherever the filter admits them, the declaration source and the
            // artifact are placed.
            &&& (r is Ok && (!editable || bare) && !old(writer).excluded(ffi_t) ==> contains_path(
                final(writer).entries(),
                old(writer).stored_path(ffi_t),
            ))
            &&& (r is Ok && (!editable || bare) && !old(writer).excluded(so_t) ==> contains_path(
                final(writer).entries(),
                old(writer).stored_path(so_t),
            ))
            // For a bare extension, where their stored paths were free, the
            // glue loader and the declaration source carry exactly their
            // stated texts, and the artifact entry carries the executable
            // bits.
            &&& (r is Ok && bare && !old(writer).excluded(init_t) && !contains_path(
                old(writer).entries(),
                old(writer).stored_path(init_t),
            ) && old(writer).stored_path(init_t) != old(writer).stored_path(stub_t) && old(
                writer,
            ).stored_path(init_t) != old(writer).stored_path(marker_t) ==> contains_entry(
                final(writer).entries(),
                old(writer).stored_path(init_t),
                encode_utf8(cffi_init_chars()),
            ))
            &&& (r is Ok && bare && !old(writer).excluded(ffi_t) && !contains_path(
                old(writer).entries(),
                old(writer).stored_path(ffi_t),
            ) && old(writer).stored_path(ffi_t) != old(writer).stored_path(stub_t) && old(
                writer,
            ).stored_path(ffi_t) != old(writer).stored_path(marker_t) && old(writer).stored_path(
                ffi_t,
            ) != old(writer).stored_path(init_t) ==> contains_entry(
                final(writer).entries(),
                old(writer).stored_path(ffi_t),
                encode_utf8(cffi_declarations@),
            ))
            &&& (r is Ok && bare && !old(writer).excluded(so_t) && !contains_path(
                old(writer).entries(),
                old(writer).stored_path(so_t),
            ) && old(writer).stored_path(so_t) != old(writer).stored_path(stub_t) && old(
                writer,
            ).stored_path(so_t) != old(writer).stored_path(marker_t) && old(writer).stored_path(
                so_t,
            ) != old(writer).stored_path(init_t) && old(writer).stored_path(so_t) != old(
                writer,
            ).stored_path(ffi_t) ==> contains_file_at(
                final(writer).entries(),
                old(writer).stored_path(so_t),
                0o755,
            ))
            // The marker is empty where its stored path was free.
            &&& (r is Ok && bare && type_stub is Some && !old(writer).excluded(marker_t)
                && !contains_path(old(writer).entries(), old(writer).stored_path(marker_t)) && old(
                writer,
            ).stored_path(marker_t) != old(writer).stored_path(stub_t) ==> contains_entry(
                final(writer).entries(),
                old(writer).stored_path(marker_t),
                Seq::<u8>::empty(),
            ))
            // For a bare extension nothing but the named targets is added;
            // without a stub, neither the stub nor its marker appears.
            &&& (r is Ok && bare ==> forall|p: Seq<char>| #![all_triggers]
                contains_path(final(writer).entries(), p) ==> contains_path(
                    old(writer).entries(),
                    p,
                ) || (type_stub is Some && (p == old(writer).stored_path(stub_t) || p == old(
                    writer,
                ).stored_path(marker_t))) || p == old(writer).stored_path(init_t) || p == old(
                    writer,
                ).stored_path(ffi_t) || p == old(writer).stored_path(so_t))
        }),
{
    let ghost pre = *writer;
    proof {
        pre.config_refl();
        assert(pre.entries().take(pre.entries().len() as int) =~= pre.entries());
    }
    let module: String;
    match &project_layout.python_module {
        Some(python_module) => {
            if !editable {
                match write_python_part(writer, python_module.as_str(), include_patterns) {
                    Ok(()) => {},
                    Err(e) => {
                        return Err(e);
                    },
                }
            }
            if editable {
                // An editable install copies the module straight into the
                // existing source tree and archives nothing.
                let base_path = path_join(python_module.as_str(), module_name);
                match fsio::create_dir_all(base_path.as_str()) {
                    Ok(()) => {},
                    Err(message) => {
                        return Err(ArchiveError::Io { path: base_path, message });
                    },
                }
                let so_path = path_join(base_path.as_str(), "native.so");
                match fsio::copy_file(artifact, so_path.as_str()) {
                    Ok(()) => {},
                    Err(message) => {
                        return Err(ArchiveError::Io { path: so_path, message });
                    },
                }
                let init_path = path_join(base_path.as_str(), "__init__.py");
                match fsio::write_file(init_path.as_str(), cffi_init_file().as_bytes()) {
                    Ok(()) => {},
                    Err(message) => {
                        return Err(ArchiveError::Io { path: init_path, message });
                    },
                }
                let ffi_path = path_join(base_path.as_str(), "ffi.py");
                match fsio::write_file(ffi_path.as_str(), cffi_declarations.as_bytes()) {
                    Ok(()) => {},
                    Err(message) => {
                        return Err(ArchiveError::Io { path: ffi_path, message });
                    },
                }
            }
            let parent = before_last_exec(python_module.as_str(), '/');
            let mut prefix = parent.clone();
            prefix.append("/");
            proof {
                reveal_strlit("/");
            }
            let relative = match strip_prefix_exec(
                project_layout.rust_module.as_str(),
                prefix.as_str(),
            ) {
                Some(rel) => rel,
                None => {
                    let mut message =
                        "the compiled module does not lie beside the source tree: ".to_owned();
                    message.append(project_layout.rust_module.as_str());
                    return Err(ArchiveError::Layout { message });
                },
            };
            module = path_join(relative.as_str(), project_layout.extension_name.as_str());
            proof {
                assert(module@ =~= cffi_module_dir(*project_layout, module_name@));
            }
            if !editable {
                let ghost wd = *writer;
                let rd = writer.add_directory(module.as_str());
                proof {
                    W::config_trans(writer, &wd, &pre);
                }
                match rd {
                    Ok(()) => {},
                    Err(e) => {
                        return Err(e);
                    },
                }
            }
        },
        None => {
            module = module_name.to_owned();
            match writer.add_directory(module.as_str()) {
                Ok(()) => {},
                Err(e) => {
                    return Err(e);
                },
            }
            proof {
                W::config_properties(writer, &pre);
            }
            if let Some(stub) = type_stub {
                let ghost wa = *writer;
                let stub_target = path_join(module.as_str(), "__init__.pyi");
                let ra = writer.add_file(stub_target.as_str(), stub.as_str());
                proof {
                    W::config_trans(writer, &wa, &pre);
                    if ra is Ok {
                        lemma_file_step(&pre, &wa, writer, stub_target@, stub@);
                        lemma_extend_trans(pre.entries(), wa.entries(), writer.entries());
                    }
                }
                match ra {
                    Ok(()) => {},
                    Err(e) => {
                        return Err(e);
                    },
                }
                let ghost wb = *writer;
                let marker_path = path_join(module.as_str(), "py.typed");
                let marker: Vec<u8> = Vec::new();
                let rb = writer.add_bytes(marker_path.as_str(), marker.as_slice());
                proof {
                    W::config_trans(writer, &wb, &pre);
                    if rb is Ok {
                        lemma_bytes_step(&pre, &wb, writer, marker_path@, Seq::empty(), 0o644);
                        lemma_extend_trans(pre.entries(), wb.entries(), writer.entries());
                    }
                }
                match rb {
                    Ok(()) => {},
                    Err(e) => {
                        return Err(e);
                    },
                }
            }
        },
    }
    if !editable || project_layout.python_module.is_none() {
        let ghost wi = *writer;
        let init_target = path_join(module.as_str(), "__init__.py");
        let ri = writer.add_bytes(init_target.as_str(), cffi_init_file().as_bytes());
        proof {
            W::config_trans(writer, &wi, &pre);
            if ri is Ok {
                lemma_bytes_step(&pre, &wi, writer, init_target@, encode_utf8(cffi_init_chars()), 0o644);
                lemma_extend_trans(pre.entries(), wi.entries(), writer.entries());
            }
        }
        match ri {
            Ok(()) => {},
            Err(e) => {
                return Err(e);
            },
        }
        let ghost wf = *writer;
        let ffi_target = path_join(module.as_str(), "ffi.py");
        let rf = writer.add_bytes(ffi_target.as_str(), cffi_declarations.as_bytes());
        proof {
            W::config_trans(writer, &wf, &pre);
            if rf is Ok {
                lemma_bytes_step(&pre, &wf, writer, ffi_target@, encode_utf8(cffi_declarations@), 0o644);
                lemma_extend_trans(pre.entries(), wf.entries(), writer.entries());
            }
        }
        match rf {
            Ok(()) => {},
            Err(e) => {
                return Err(e);
            },
        }
        let ghost ws = *writer;
        let so_target = path_join(module.as_str(), "native.so");
        let rs = writer.add_file_with_permissions(so_target.as_str(), artifact, 0o755);
        proof {
            W::config_trans(writer, &ws, &pre);
            if rs is Ok {
                lemma_perm_step(&pre, &ws, writer, so_target@, 0o755);
                lemma_extend_trans(pre.entries(), ws.entries(), writer.entries());
            }
        }
        match rs {
            Ok(()) => {},
            Err(e) => {
                return Err(e);
            },
        }
    }
    Ok(())
}

/// The subdirectory names an auxiliary data directory may contain.
pub open spec fn allowed_data_dir_name(name: Seq<char>) -> bool {
    name == "data"@ || name == "scripts"@ || name == "headers"@ || name == "purelib"@ || name
        == "platlib"@
}

/// Tests whether `name` is one of the subdirectories an auxiliary data
/// directory may contain.
pub fn data_dir_name_allowed(name: &str) -> (r: bool)
    ensures
        r == allowed_data_dir_name(name@),
{
    crate::strutil::str_eq(name, "data") || crate::strutil::str_eq(name, "scripts")
        || crate::strutil::str_eq(name, "headers") || crate::strutil::str_eq(name, "purelib")
        || crate::strutil::str_eq(name, "platlib")
}

/// What the data copier decides for one walked entry of a data subdirectory;
/// each variant carries the archive-relative target path.
pub enum DataAction {
    /// Declare the directory.
    AddDirectory(String),
    /// Copy the regular file at the walked path.
    CopyFile(String),
    /// Resolve the symbolic link first, then copy its target's content, so
    /// that the archive never stores a symlink.
    ResolveLink(String),
}

/// The decision for one walked data entry: its path relative to `parent` and
/// how to copy it; a fatal error for an entry that does not lie under
/// `parent` or is neither a directory, a regular file nor a symlink.
pub fn data_entry_action(parent: &str, entry_path: &str, kind: EntryKind) -> (r: Result<
    DataAction,
    ArchiveError,
>)
    ensures
        ({
            let rel = tree_rel(parent@, entry_path@);
            match r {
                Ok(a) => is_prefix_of(parent@ + "/"@, entry_path@) && match a {
                    DataAction::AddDirectory(d) => kind == EntryKind::Directory && d@ == rel,
                    DataAction::CopyFile(t) => kind == EntryKind::RegularFile && t@ == rel,
                    DataAction::ResolveLink(t) => kind == EntryKind::Symlink && t@ == rel,
                },
                Err(_) => !is_prefix_of(parent@ + "/"@, entry_path@) || kind == EntryKind::Other,
            }
        }),
{
    let mut prefix = parent.to_owned();
    prefix.append("/");
    proof {
        reveal_strlit("/");
    }
    let rel = match strip_prefix_exec(entry_path, prefix.as_str()) {
        Some(rel) => rel,
        None => {
            let mut message = "data entry does not lie under the data directory: ".to_owned();
            message.append(entry_path);
            return Err(ArchiveError::Layout { message });
        },
    };
    match kind {
        EntryKind::Directory => Ok(DataAction::AddDirectory(rel)),
        EntryKind::RegularFile => Ok(DataAction::CopyFile(rel)),
        EntryKind::Symlink => Ok(DataAction::ResolveLink(rel)),
        EntryKind::Other => {
            let mut message = "cannot handle data directory entry ".to_owned();
            message.append(entry_path);
            Err(ArchiveError::Layout { message })
        },
    }
}

/// Copies the walked entries of one data subdirectory, mirroring the data
/// directory's internal structure relative to `parent`. Symbolic links are
/// resolved to their target's content first. On success every walked entry lay
/// under `parent` and none was of an unhandled kind, and every regular file
/// the backend admits sits in the archive at its mirrored path; nothing but
/// mirrors of walked files is added.
pub fn copy_data_entries<W: ModuleWriter>(
    writer: &mut W,
    parent: &str,
    walked: &Vec<WalkedEntry>,
) -> (r: Result<(), ArchiveError>)
    requires
        old(writer).inv(),
    ensures
        final(writer).inv(),
        final(writer).same_config(old(writer)),
        entries_extend(old(writer).entries(), final(writer).entries()),
        r is Ok ==> forall|k: int| #![all_triggers]
            0 <= k < walked@.len() ==> is_prefix_of(parent@ + "/"@, walked@[k].path@)
                && walked@[k].kind != EntryKind::Other,
        r is Ok ==> forall|k: int| #![all_triggers]
            0 <= k < walked@.len() && walked@[k].kind == EntryKind::RegularFile && copy_admitted(
                *old(writer),
                tree_rel(parent@, walked@[k].path@),
                walked@[k].path@,
            ) ==> contains_path(
                final(writer).entries(),
                old(writer).stored_path(tree_rel(parent@, walked@[k].path@)),
            ),
        forall|p: Seq<char>| #![all_triggers]
            contains_path(final(writer).entries(), p) ==> contains_path(
                old(writer).entries(),
                p,
            ) || exists|k: int|
                0 <= k < walked@.len() && walked@[k].kind != EntryKind::Directory && p == old(
                    writer,
                ).stored_path(tree_rel(parent@, walked@[k].path@)),
{
    let ghost pre = *writer;
    proof {
        pre.config_refl();
        assert(pre.entries().take(pre.entries().len() as int) =~= pre.entries());
    }
    let mut k: usize = 0;
    while k < walked.len()
        invariant
            pre == *old(writer),
            writer.inv(),
            writer.same_config(&pre),
            entries_extend(pre.entries(), writer.entries()),
            k <= walked@.len(),
            forall|j: int| #![all_triggers]
                0 <= j < k ==> is_prefix_of(parent@ + "/"@, walked@[j].path@) && walked@[j].kind
                    != EntryKind::Other,
            forall|j: int| #![all_triggers]
                0 <= j < k && walked@[j].kind == EntryKind::RegularFile && copy_admitted(
                    pre,
                    tree_rel(parent@, walked@[j].path@),
                    walked@[j].path@,
                ) ==> contains_path(
                    writer.entries(),
                    pre.stored_path(tree_rel(parent@, walked@[j].path@)),
                ),
            forall|p: Seq<char>| #![all_triggers]
                contains_path(writer.entries(), p) ==> contains_path(pre.entries(), p) || exists|
                    j: int,
                |
                    0 <= j < k && walked@[j].kind != EntryKind::Directory && p == pre.stored_path(
                        tree_rel(parent@, walked@[j].path@),
                    ),
        decreases walked@.len() - k,
    {
        let ghost wl = *writer;
        let entry = &walked[k];
        let action = match data_entry_action(parent, entry.path.as_str(), entry.kind) {
            Ok(action) => action,
            Err(e) => {
                return Err(e);
            },
        };
        match &action {
            DataAction::AddDirectory(d) => {
                let rd = writer.add_directory(d.as_str());
                proof {
                    W::config_trans(writer, &wl, &pre);
                }
                match rd {
                    Ok(()) => {},
                    Err(e) => {
                        return Err(e);
                    },
                }
            },
            DataAction::CopyFile(t) => {
                let rf = writer.add_file(t.as_str(), entry.path.as_str());
                proof {
                    W::config_trans(writer, &wl, &pre);
                    if rf is Ok {
                        lemma_file_step(&pre, &wl, writer, t@, entry.path@);
                    }
                }
                match rf {
                    Ok(()) => {},
                    Err(e) => {
                        return Err(e);
                    },
                }
            },
            DataAction::ResolveLink(t) => {
                let source = match fsio::read_link_target(entry.path.as_str()) {
                    Ok(source) => source,
                    Err(message) => {
                        return Err(ArchiveError::Io { path: entry.path.clone(), message });
                    },
                };
                let rf = writer.add_file(t.as_str(), source.as_str());
                proof {
                    W::config_trans(writer, &wl, &pre);
                    if rf is Ok {
                        lemma_file_step(&pre, &wl, writer, t@, source@);
                    }
                }
                match rf {
                    Ok(()) => {},
                    Err(e) => {
                        return Err(e);
                    },
                }
            },
        }
        proof {
            if writer.entries() == wl.entries() {
                assert(writer.entries().take(wl.entries().len() as int) =~= wl.entries());
            }
            lemma_extend_trans(pre.entries(), wl.entries(), writer.entries());
            assert forall|j: int|
                0 <= j < k + 1 && walked@[j].kind == EntryKind::RegularFile && copy_admitted(
                    pre,
                    tree_rel(parent@, walked@[j].path@),
                    walked@[j].path@,
                ) implies contains_path(
                writer.entries(),
                pre.stored_path(tree_rel(parent@, walked@[j].path@)),
            ) by {
                if j < k {
                    lemma_extend_preserves_contains(
                        wl.entries(),
                        writer.entries(),
                        pre.stored_path(tree_rel(parent@, walked@[j].path@)),
                    );
                }
            }
            assert forall|p: Seq<char>|
                contains_path(writer.entries(), p) implies contains_path(pre.entries(), p)
                || exists|j: int|
                    0 <= j < k + 1 && walked@[j].kind != EntryKind::Directory && p
                        == pre.stored_path(tree_rel(parent@, walked@[j].path@)) by {
                if !contains_path(wl.entries(), p) {
                    assert(p == pre.stored_path(tree_rel(parent@, walked@[k as int].path@)));
                }
            }
        }
        k = k + 1;
    }
    Ok(())
}

/// Validates and copies the listed subdirectories of an auxiliary data
/// directory: on success every listed entry was a directory with one of the
/// allowed names (`data`, `scripts`, `headers`, `purelib`, `platlib`) — any
/// other entry is a fatal validation error raised before any partial copy of
/// that item — and each one's tree was walked and copied through
/// `copy_data_entries`.
pub fn copy_data_dirs<W: ModuleWriter>(
    writer: &mut W,
    parent: &str,
    subdirs: &Vec<WalkedEntry>,
) -> (r: Result<(), ArchiveError>)
    requires
        old(writer).inv(),
    ensures
        final(writer).inv(),
        final(writer).same_config(old(writer)),
        entries_extend(old(writer).entries(), final(writer).entries()),
        r is Ok ==> forall|d: int| #![all_triggers]
            0 <= d < subdirs@.len() ==> subdirs@[d].kind == EntryKind::Directory
                && allowed_data_dir_name(after_last(subdirs@[d].path@, '/')),
{
    let ghost pre = *writer;
    proof {
        pre.config_refl();
        assert(pre.entries().take(pre.entries().len() as int) =~= pre.entries());
    }
    let mut d: usize = 0;
    while d < subdirs.len()
        invariant
            pre == *old(writer),
            writer.inv(),
            writer.same_config(&pre),
            entries_extend(pre.entries(), writer.entries()),
            d <= subdirs@.len(),
            forall|j: int| #![all_triggers]
                0 <= j < d ==> subdirs@[j].kind == EntryKind::Directory && allowed_data_dir_name(
                    after_last(subdirs@[j].path@, '/'),
                ),
        decreases subdirs@.len() - d,
    {
        let ghost wl = *writer;
        let subdir = &subdirs[d];
        let dir_name = crate::strutil::after_last_exec(subdir.path.as_str(), '/');
        if !matches!(subdir.kind, EntryKind::Directory) || !data_dir_name_allowed(
            dir_name.as_str(),
        ) {
            let mut message = "invalid data directory entry ".to_owned();
            message.append(subdir.path.as_str());
            message.append(
                "; possible are directories named data, scripts, headers, purelib, platlib",
            );
            return Err(ArchiveError::Layout { message });
        }
        let walked = match fsio::walk_dir(subdir.path.as_str(), true, false) {
            Ok(walked) => walked,
            Err(message) => {
                return Err(ArchiveError::Io { path: subdir.path.clone(), message });
            },
        };
        let rc = copy_data_entries(writer, parent, &walked);
        proof {
            W::config_trans(writer, &wl, &pre);
            lemma_extend_trans(pre.entries(), wl.entries(), writer.entries());
        }
        match rc {
            Ok(()) => {},
            Err(e) => {
                return Err(e);
            },
        }
        d = d + 1;
    }
    Ok(())
}

/// Copies the files of an optional auxiliary data directory, which may contain
/// exactly the subdirectories `data`, `scripts`, `headers`, `purelib` and
/// `platlib` — any other subdirectory name is a fatal validation error. Each
/// file is copied at a path mirroring the data directory's internal structure;
/// symbolic links are resolved to their target's content first, so the archive
/// never stores a symlink. Absent a data directory, nothing at all happens.
/// `copy_data_dirs` and `copy_data_entries` carry the validation and per-entry
/// contracts; this shell only enumerates the disk.
pub fn add_data<W: ModuleWriter>(writer: &mut W, data: Option<&String>) -> (r: Result<
    (),
    ArchiveError,
>)
    requires
        old(writer).inv(),
    ensures
        final(writer).inv(),
        final(writer).same_config(old(writer)),
        entries_extend(old(writer).entries(), final(writer).entries()),
        data is None ==> r is Ok && final(writer).entries() == old(writer).entries(),
{
    let ghost pre = *writer;
    proof {
        pre.config_refl();
        assert(pre.entries().take(pre.entries().len() as int) =~= pre.entries());
    }
    let data = match data {
        Some(data) => data,
        None => {
            return Ok(());
        },
    };
    let subdirs = match fsio::read_dir_entries(data.as_str()) {
        Ok(subdirs) => subdirs,
        Err(message) => {
            return Err(ArchiveError::Io { path: data.clone(), message });
        },
    };
    let parent = before_last_exec(data.as_str(), '/');
    copy_data_dirs(writer, parent.as_str(), &subdirs)
}

/// One `add_file` call preserves the extension of the entries.
proof fn lemma_step_extend_file<W: ModuleWriter>(
    pre: &W,
    before: &W,
    after: &W,
    ok: bool,
    t: Seq<char>,
    s: Seq<char>,
)
    requires
        entries_extend(pre.entries(), before.entries()),
        ok && before.suppresses_file(t, s) ==> after.entries() == before.entries(),
        ok && !before.suppresses_file(t, s) ==> exists|c: Seq<u8>, m: u32|
            after.entries() == before.entries().push(
                EntryModel { path: before.stored_path(t), content: c, mode: m },
            ),
        !ok ==> after.entries() == before.entries(),
    ensures
        ok || after.entries() == before.entries(),
        entries_extend(pre.entries(), after.entries()),
{
    if after.entries() == before.entries() {
        assert(after.entries().take(before.entries().len() as int) =~= before.entries());
    } else {
        let (c, m) = choose|c: Seq<u8>, m: u32|
            after.entries() == before.entries().push(
                EntryModel { path: before.stored_path(t), content: c, mode: m },
            );
        assert(after.entries().take(before.entries().len() as int) =~= before.entries());
    }
    lemma_extend_trans(pre.entries(), before.entries(), after.entries());
}

/// One backend call extends the entries, whatever it did.
proof fn lemma_step_extend<W: ModuleWriter>(pre: &W, before: &W, after: &W)
    requires
        entries_extend(pre.entries(), before.entries()),
        after.entries() == before.entries() || exists|e: EntryModel|
            after.entries() == before.entries().push(e),
    ensures
        entries_extend(pre.entries(), after.entries()),
{
    if after.entries() == before.entries() {
        assert(after.entries().take(before.entries().len() as int) =~= before.entries());
    } else {
        let e = choose|e: EntryModel| after.entries() == before.entries().push(e);
        assert(after.entries().take(before.entries().len() as int) =~= before.entries());
    }
    lemma_extend_trans(pre.entries(), before.entries(), after.entries());
}

} // verus!
