//! The metadata-directory assembler: writes the metadata file, the
//! compatibility-tag file, the entry-point declarations and the license files
//! through the archive-backend contract, in that order. It never finalizes the
//! backend — finalize stays the caller's responsibility.
use vstd::prelude::*;
use vstd::string::StrSliceExecFns;
use vstd::string::StringExecFns;
use vstd::utf8::encode_utf8;
use crate::ArchiveError;
use crate::metadata::PackageMetadata;
use crate::metadata::dist_info_dir_chars;
use crate::strutil::after_last;
use crate::strutil::after_last_exec;
use crate::strutil::strip_trailing;
use crate::strutil::strip_trailing_exec;
use crate::strutil::joined;
use crate::strutil::path_join;
use crate::writer::EntryModel;
use crate::writer::ModuleWriter;
use crate::writer::contains_entry;
use crate::writer::contains_path;
use crate::writer::entries_extend;
use crate::writer::lemma_bytes_step;
use crate::writer::lemma_extend_preserves_contains;
use crate::writer::lemma_extend_preserves_entry;
use crate::writer::lemma_extend_preserves_index;
use crate::writer::lemma_extend_trans;
use crate::writer::lemma_file_step;

verus! {

/// The fixed three-line header of the compatibility-tag file.
pub open spec fn wheel_header_chars() -> Seq<char> {
    "Wheel-Version: 1.0\nGenerator: module_writer (0.1.0)\nRoot-Is-Purelib: false\n"@
}

/// The compatibility-tag file: the fixed header followed by one `Tag:` line
/// per tag, in the caller-supplied order.
pub open spec fn wheel_file_chars(tags: Seq<Seq<char>>) -> Seq<char>
    decreases tags.len(),
{
    if tags.len() == 0 {
        wheel_header_chars()
    } else {
        wheel_file_chars(tags.drop_last()) + "Tag: "@ + tags.last() + "\n"@
    }
}

/// Renders the compatibility-tag file (`WHEEL`).
pub fn wheel_file(tags: &Vec<String>) -> (r: String)
    ensures
        r@ == wheel_file_chars(tags.deep_view()),
{
    let mut out =
        "Wheel-Version: 1.0\nGenerator: module_writer (0.1.0)\nRoot-Is-Purelib: false\n".to_owned();
    let mut i: usize = 0;
    while i < tags.len()
        invariant
            i <= tags@.len(),
            out@ == wheel_file_chars(tags.deep_view().take(i as int)),
        decreases tags@.len() - i,
    {
        out.append("Tag: ");
        out.append(tags[i].as_str());
        out.append("\n");
        proof {
            let taken = tags.deep_view().take(i + 1);
            assert(taken.drop_last() =~= tags.deep_view().take(i as int));
            assert(taken.last() == tags@[i as int]@);
            assert(out@ =~= wheel_file_chars(taken));
        }
        i = i + 1;
    }
    proof {
        assert(tags.deep_view().take(tags@.len() as int) =~= tags.deep_view());
    }
    out
}

/// The views of a list of key-value pairs.
pub open spec fn pairs_view(pairs: Seq<(String, String)>) -> Seq<(Seq<char>, Seq<char>)> {
    pairs.map_values(|p: (String, String)| (p.0@, p.1@))
}

/// The `key=value` lines of one entry-point section, in the supplied order.
pub open spec fn entry_lines_chars(pairs: Seq<(Seq<char>, Seq<char>)>) -> Seq<char>
    decreases pairs.len(),
{
    if pairs.len() == 0 {
        Seq::empty()
    } else {
        entry_lines_chars(pairs.drop_last()) + pairs.last().0 + "="@ + pairs.last().1 + "\n"@
    }
}

/// One entry-point section: a bracketed group name, then its `key=value`
/// lines.
pub open spec fn entry_points_txt_chars(
    entry_type: Seq<char>,
    pairs: Seq<(Seq<char>, Seq<char>)>,
) -> Seq<char> {
    "["@ + entry_type + "]\n"@ + entry_lines_chars(pairs)
}

/// Renders one entry-point section from an explicitly ordered list of pairs,
/// so the output is deterministic and reproducible.
pub fn entry_points_txt(entry_type: &str, entrypoints: &Vec<(String, String)>) -> (r: String)
    ensures
        r@ == entry_points_txt_chars(entry_type@, pairs_view(entrypoints@)),
{
    let mut out = "[".to_owned();
    out.append(entry_type);
    out.append("]\n");
    let ghost header = out@;
    proof {
        assert(header =~= "["@ + entry_type@ + "]\n"@);
    }
    let mut i: usize = 0;
    while i < entrypoints.len()
        invariant
            i <= entrypoints@.len(),
            header == "["@ + entry_type@ + "]\n"@,
            out@ == header + entry_lines_chars(pairs_view(entrypoints@).take(i as int)),
        decreases entrypoints@.len() - i,
    {
        let pair = &entrypoints[i];
        out.append(pair.0.as_str());
        out.append("=");
        out.append(pair.1.as_str());
        out.append("\n");
        proof {
            let taken = pairs_view(entrypoints@).take(i + 1);
            assert(taken.drop_last() =~= pairs_view(entrypoints@).take(i as int));
            assert(taken.last() == (entrypoints@[i as int].0@, entrypoints@[i as int].1@));
            assert(out@ =~= header + entry_lines_chars(taken));
        }
        i = i + 1;
    }
    proof {
        assert(pairs_view(entrypoints@).take(entrypoints@.len() as int) =~= pairs_view(
            entrypoints@,
        ));
        assert(out@ =~= entry_points_txt_chars(entry_type@, pairs_view(entrypoints@)));
    }
    out
}

/// The sections of the caller-defined entry-point groups, in order.
pub open spec fn custom_groups_chars(groups: Seq<(String, Vec<(String, String)>)>) -> Seq<char>
    decreases groups.len(),
{
    if groups.len() == 0 {
        Seq::empty()
    } else {
        custom_groups_chars(groups.drop_last()) + entry_points_txt_chars(
            groups.last().0@,
            pairs_view(groups.last().1@),
        )
    }
}

/// The whole entry-points file: `[console_scripts]`, `[gui_scripts]`, then the
/// caller-defined groups, each section present only when it has entries to
/// declare.
pub open spec fn all_entry_points_chars(meta: PackageMetadata) -> Seq<char> {
    (if meta.scripts@.len() > 0 {
        entry_points_txt_chars("console_scripts"@, pairs_view(meta.scripts@))
    } else {
        Seq::empty()
    }) + (if meta.gui_scripts@.len() > 0 {
        entry_points_txt_chars("gui_scripts"@, pairs_view(meta.gui_scripts@))
    } else {
        Seq::empty()
    }) + custom_groups_chars(meta.entry_points@)
}

/// True when the package declares any entry point, so that the entry-points
/// file is written at all.
pub open spec fn has_entry_points(meta: PackageMetadata) -> bool {
    meta.scripts@.len() > 0 || meta.gui_scripts@.len() > 0 || meta.entry_points@.len() > 0
}

/// The file name component of a license path: what follows the last
/// separator, ignoring trailing separators.
pub open spec fn license_name(path: Seq<char>) -> Seq<char> {
    after_last(strip_trailing(path, '/'), '/')
}

/// The target path of the `i`-th license file inside the metadata directory:
/// `{dist-info}/license_files/{file name}`.
pub open spec fn license_target(meta: PackageMetadata, i: int) -> Seq<char> {
    joined(
        joined(dist_info_dir_chars(meta.name@, meta.version@), "license_files"@),
        license_name(meta.license_files@[i]@),
    )
}

/// Every path in `post` was either already written in `pre` or is one of the
/// metadata-directory targets: the assembler adds nothing else. In
/// particular, without entry points no entry is ever added at the
/// `entry_points.txt` target.
pub open spec fn dist_info_bounded<W: ModuleWriter>(
    pre: W,
    post: W,
    meta: PackageMetadata,
) -> bool {
    let dd = dist_info_dir_chars(meta.name@, meta.version@);
    forall|p: Seq<char>| #![all_triggers]
        contains_path(post.entries(), p) ==> contains_path(pre.entries(), p) || p
            == pre.stored_path(joined(dd, "METADATA"@)) || p == pre.stored_path(
            joined(dd, "WHEEL"@),
        ) || (has_entry_points(meta) && p == pre.stored_path(joined(dd, "entry_points.txt"@)))
            || exists|k: int|
            0 <= k < meta.license_files@.len() && p == pre.stored_path(license_target(meta, k))
}

/// What the metadata-directory assembler leaves behind, stated between a
/// backend state `pre` and a later state `post`:
/// - every metadata target the filter admits (and, for license copies, whose
///   source the backend accepts) sits in the archive afterwards;
/// - where the `METADATA`, `WHEEL` or `entry_points.txt` target was free
///   beforehand, the entry carries exactly the serialized metadata record,
///   the compatibility-tag file, or the rendered entry-point declarations;
/// - where both the `METADATA` and the `WHEEL` targets were free, they stand
///   in that order, as the first two entries the assembler appended.
pub open spec fn dist_info_written<W: ModuleWriter>(
    pre: W,
    post: W,
    meta: PackageMetadata,
    tags: Seq<Seq<char>>,
) -> bool {
    let dd = dist_info_dir_chars(meta.name@, meta.version@);
    let mp = joined(dd, "METADATA"@);
    let wp = joined(dd, "WHEEL"@);
    let epp = joined(dd, "entry_points.txt"@);
    &&& (!pre.excluded(mp) ==> contains_path(post.entries(), pre.stored_path(mp)))
    &&& (!pre.excluded(wp) ==> contains_path(post.entries(), pre.stored_path(wp)))
    &&& (has_entry_points(meta) && !pre.excluded(epp) ==> contains_path(
        post.entries(),
        pre.stored_path(epp),
    ))
    &&& (forall|i: int| #![all_triggers]
        0 <= i < meta.license_files@.len() && !pre.excluded(license_target(meta, i))
            && !pre.excluded(meta.license_files@[i]@) && !pre.self_source(meta.license_files@[i]@)
            ==> contains_path(post.entries(), pre.stored_path(license_target(meta, i))))
    &&& (!pre.excluded(mp) && !contains_path(pre.entries(), pre.stored_path(mp))
        ==> contains_entry(
        post.entries(),
        pre.stored_path(mp),
        encode_utf8(meta.metadata_file_contents@),
    ))
    &&& (!pre.excluded(wp) && !contains_path(pre.entries(), pre.stored_path(wp))
        && pre.stored_path(wp) != pre.stored_path(mp) ==> contains_entry(
        post.entries(),
        pre.stored_path(wp),
        encode_utf8(wheel_file_chars(tags)),
    ))
    &&& (has_entry_points(meta) && !pre.excluded(epp) && !contains_path(
        pre.entries(),
        pre.stored_path(epp),
    ) && pre.stored_path(epp) != pre.stored_path(mp) && pre.stored_path(epp) != pre.stored_path(
        wp,
    ) ==> contains_entry(
        post.entries(),
        pre.stored_path(epp),
        encode_utf8(all_entry_points_chars(meta)),
    ))
    &&& (!pre.excluded(mp) && !pre.excluded(wp) && !contains_path(
        pre.entries(),
        pre.stored_path(mp),
    ) && !contains_path(pre.entries(), pre.stored_path(wp)) && pre.stored_path(wp)
        != pre.stored_path(mp) ==> post.entries().len() >= pre.entries().len() + 2
        && post.entries()[pre.entries().len() as int].path == pre.stored_path(mp)
        && post.entries()[pre.entries().len() as int].content == encode_utf8(
        meta.metadata_file_contents@,
    ) && post.entries()[pre.entries().len() as int + 1].path == pre.stored_path(wp)
        && post.entries()[pre.entries().len() as int + 1].content == encode_utf8(wheel_file_chars(tags)))
}

/// Tests whether any entry point exists, as `has_entry_points` states it.
fn entry_points_empty_check(metadata: &PackageMetadata) -> (r: bool)
    ensures
        r == has_entry_points(*metadata),
{
    metadata.scripts.len() > 0 || metadata.gui_scripts.len() > 0 || metadata.entry_points.len() > 0
}

/// Renders the whole entry-points file in the fixed section order.
fn render_all_entry_points(metadata: &PackageMetadata) -> (r: String)
    ensures
        r@ == all_entry_points_chars(*metadata),
{
    let mut out = String::new();
    if metadata.scripts.len() > 0 {
        let section = entry_points_txt("console_scripts", &metadata.scripts);
        out.append(section.as_str());
    }
    if metadata.gui_scripts.len() > 0 {
        let section = entry_points_txt("gui_scripts", &metadata.gui_scripts);
        out.append(section.as_str());
    }
    let ghost head = out@;
    proof {
        assert(head =~= (if metadata.scripts@.len() > 0 {
            entry_points_txt_chars("console_scripts"@, pairs_view(metadata.scripts@))
        } else {
            Seq::<char>::empty()
        }) + (if metadata.gui_scripts@.len() > 0 {
            entry_points_txt_chars("gui_scripts"@, pairs_view(metadata.gui_scripts@))
        } else {
            Seq::<char>::empty()
        }));
    }
    let mut i: usize = 0;
    while i < metadata.entry_points.len()
        invariant
            i <= metadata.entry_points@.len(),
            head == (if metadata.scripts@.len() > 0 {
                entry_points_txt_chars("console_scripts"@, pairs_view(metadata.scripts@))
            } else {
                Seq::<char>::empty()
            }) + (if metadata.gui_scripts@.len() > 0 {
                entry_points_txt_chars("gui_scripts"@, pairs_view(metadata.gui_scripts@))
            } else {
                Seq::<char>::empty()
            }),
            out@ == head + custom_groups_chars(metadata.entry_points@.take(i as int)),
        decreases metadata.entry_points@.len() - i,
    {
        let group = &metadata.entry_points[i];
        let section = entry_points_txt(group.0.as_str(), &group.1);
        out.append(section.as_str());
        proof {
            let taken = metadata.entry_points@.take(i + 1);
            assert(taken.drop_last() =~= metadata.entry_points@.take(i as int));
            assert(taken.last() == metadata.entry_points@[i as int]);
            assert(out@ =~= head + custom_groups_chars(taken));
        }
        i = i + 1;
    }
    proof {
        assert(metadata.entry_points@.take(metadata.entry_points@.len() as int)
            =~= metadata.entry_points@);
        assert(out@ =~= all_entry_points_chars(*metadata));
    }
    out
}

/// Writes the metadata directory: the opaque `METADATA` record, the `WHEEL`
/// compatibility-tag file, the `entry_points.txt` declarations when any entry
/// point exists, and a `license_files` subdirectory with a copy of each
/// declared license file. Among input-determined causes it fails exactly when
/// a declared license file path has no file name component.
pub fn write_dist_info<W: ModuleWriter>(
    writer: &mut W,
    metadata: &PackageMetadata,
    tags: &Vec<String>,
) -> (r: Result<(), ArchiveError>)
    requires
        old(writer).inv(),
    ensures
        final(writer).inv(),
        final(writer).same_config(old(writer)),
        entries_extend(old(writer).entries(), final(writer).entries()),
        dist_info_bounded(*old(writer), *final(writer), *metadata),
        r is Ok ==> dist_info_written(*old(writer), *final(writer), *metadata, tags.deep_view()),
        r is Ok ==> forall|i: int|
            0 <= i < metadata.license_files@.len() ==> license_name(
                metadata.license_files@[i]@,
            ).len() > 0,
        (exists|i: int|
            0 <= i < metadata.license_files@.len() && license_name(
                metadata.license_files@[i]@,
            ).len() == 0) ==> (r matches Err(e) && e is Layout && final(writer).entries() == old(
            writer,
        ).entries()),
{
    let ghost pre = *writer;
    proof {
        pre.config_refl();
        assert(pre.entries().take(pre.entries().len() as int) =~= pre.entries());
    }
    let dist_info_dir = metadata.get_dist_info_dir();
    let ghost dd = dist_info_dir_chars(metadata.name@, metadata.version@);
    let ghost mp = joined(dd, "METADATA"@);
    let ghost wp = joined(dd, "WHEEL"@);
    let ghost epp = joined(dd, "entry_points.txt"@);

    // Validate every declared license file name up front: a layout-validation
    // failure is raised before any write.
    let mut v: usize = 0;
    while v < metadata.license_files.len()
        invariant
            pre == *old(writer),
            *writer == pre,
            writer.inv(),
            writer.same_config(&pre),
            v <= metadata.license_files@.len(),
            forall|k: int|
                0 <= k < v ==> license_name(#[trigger] metadata.license_files@[k]@).len() > 0,
        decreases metadata.license_files@.len() - v,
    {
        let lic = &metadata.license_files[v];
        let stripped = strip_trailing_exec(lic.as_str(), '/');
        let filename = after_last_exec(stripped.as_str(), '/');
        if filename.as_str().unicode_len() == 0 {
            let mut message = "missing file name for license file ".to_owned();
            message.append(lic.as_str());
            proof {
                assert(writer.entries().take(writer.entries().len() as int) =~= writer.entries());
            }
            return Err(ArchiveError::Layout { message });
        }
        v = v + 1;
    }
    let ghost names_ok = forall|k: int|
        0 <= k < metadata.license_files@.len() ==> license_name(
            #[trigger] metadata.license_files@[k]@,
        ).len() > 0;
    proof {
        assert(names_ok);
    }

    match writer.add_directory(dist_info_dir.as_str()) {
        Ok(()) => {},
        Err(e) => {
            return Err(e);
        },
    }
    let ghost w0 = *writer;

    // The metadata file, serialized by the metadata collaborator.
    let metadata_path = path_join(dist_info_dir.as_str(), "METADATA");
    let r1 = writer.add_bytes(
        metadata_path.as_str(),
        metadata.metadata_file_contents.as_str().as_bytes(),
    );
    proof {
        W::config_trans(writer, &w0, &pre);
        w0.config_properties(&pre);
        w0.suppression_bound(mp);
        if r1 is Ok {
            lemma_bytes_step(
                &pre,
                &w0,
                writer,
                mp,
                encode_utf8(metadata.metadata_file_contents@),
                0o644,
            );
            lemma_extend_trans(pre.entries(), w0.entries(), writer.entries());
        }
        assert(dist_info_bounded(pre, *writer, *metadata));
    }
    match r1 {
        Ok(()) => {},
        Err(e) => {
            return Err(e);
        },
    }
    let ghost w1 = *writer;

    // The compatibility-tag file.
    let wheel_path = path_join(dist_info_dir.as_str(), "WHEEL");
    let wheel_contents = wheel_file(tags);
    let r2 = writer.add_bytes(wheel_path.as_str(), wheel_contents.as_str().as_bytes());
    let ghost hmw = !pre.excluded(mp) && !pre.excluded(wp) && !contains_path(
        pre.entries(),
        pre.stored_path(mp),
    ) && !contains_path(pre.entries(), pre.stored_path(wp)) && pre.stored_path(wp)
        != pre.stored_path(mp);
    proof {
        W::config_trans(writer, &w1, &pre);
        w1.config_properties(&pre);
        w1.suppression_bound(wp);
        if r2 is Ok {
            lemma_bytes_step(&pre, &w1, writer, wp, encode_utf8(wheel_file_chars(tags.deep_view())), 0o644);
            lemma_extend_trans(pre.entries(), w1.entries(), writer.entries());
            if !pre.excluded(mp) {
                lemma_extend_preserves_contains(w1.entries(), writer.entries(), pre.stored_path(mp));
            }
            if !pre.excluded(wp) && !contains_path(pre.entries(), pre.stored_path(wp))
                && pre.stored_path(wp) != pre.stored_path(mp) {
                // The target was still free: at most the metadata entry was
                // added before it, at a different stored path.
                assert(!contains_path(w1.entries(), pre.stored_path(wp)));
            }
            if hmw {
                // Both targets were free: METADATA and WHEEL are appended in
                // that order, right after the entries already written.
                let n = pre.entries().len() as int;
                assert(w1.entries() == pre.entries().push(
                    EntryModel {
                        path: pre.stored_path(mp),
                        content: encode_utf8(metadata.metadata_file_contents@),
                        mode: 0o644,
                    },
                ));
                assert(writer.entries()[n].path == pre.stored_path(mp));
                assert(writer.entries()[n + 1].path == pre.stored_path(wp));
            }
        }
        assert(dist_info_bounded(pre, *writer, *metadata));
    }
    match r2 {
        Ok(()) => {},
        Err(e) => {
            return Err(e);
        },
    }
    let ghost w2 = *writer;

    // The entry-point declarations, omitted entirely when no entry point
    // exists.
    if entry_points_empty_check(metadata) {
        let ep_path = path_join(dist_info_dir.as_str(), "entry_points.txt");
        let entry_points = render_all_entry_points(metadata);
        let r3 = writer.add_bytes(ep_path.as_str(), entry_points.as_str().as_bytes());
        proof {
            W::config_trans(writer, &w2, &pre);
            if r3 is Ok {
                lemma_bytes_step(&pre, &w2, writer, epp, encode_utf8(all_entry_points_chars(*metadata)), 0o644);
                lemma_extend_trans(pre.entries(), w2.entries(), writer.entries());
                if !pre.excluded(mp) {
                    lemma_extend_preserves_contains(w2.entries(), writer.entries(), pre.stored_path(mp));
                }
                if !pre.excluded(wp) {
                    lemma_extend_preserves_contains(w2.entries(), writer.entries(), pre.stored_path(wp));
                }
            }
            assert(dist_info_bounded(pre, *writer, *metadata));
        }
        match r3 {
            Ok(()) => {},
            Err(e) => {
                return Err(e);
            },
        }
    }
    let ghost w3 = *writer;
    proof {
        if w3.entries() == w2.entries() {
            assert(w3.entries().take(w2.entries().len() as int) =~= w2.entries());
        }
        assert(entries_extend(w2.entries(), w3.entries()));
        if hmw {
            lemma_extend_preserves_index(
                w2.entries(),
                w3.entries(),
                pre.entries().len() as int,
            );
            lemma_extend_preserves_index(w2.entries(), w3.entries(), pre.entries().len() as int + 1);
        }
        assert(dist_info_partial(pre, w3, *metadata, tags.deep_view()));
        assert(w3.entries().take(w3.entries().len() as int) =~= w3.entries());
        assert(dist_info_bounded(pre, w3, *metadata));
    }

    // A copy of each declared license file, named by its own file name.
    if metadata.license_files.len() > 0 {
        let license_dir = path_join(dist_info_dir.as_str(), "license_files");
        match writer.add_directory(license_dir.as_str()) {
            Ok(()) => {},
            Err(e) => {
                proof {
                    W::config_trans(writer, &w3, &pre);
                }
                return Err(e);
            },
        }
        proof {
            W::config_trans(writer, &w3, &pre);
        }
        let mut i: usize = 0;
        while i < metadata.license_files.len()
            invariant
                pre == *old(writer),
                writer.inv(),
                i <= metadata.license_files@.len(),
                writer.same_config(&pre),
                entries_extend(pre.entries(), writer.entries()),
                entries_extend(w3.entries(), writer.entries()),
                dd == dist_info_dir_chars(metadata.name@, metadata.version@),
                license_dir@ == joined(dd, "license_files"@),
                dist_info_partial(pre, w3, *metadata, tags.deep_view()),
                dist_info_bounded(pre, *writer, *metadata),
                names_ok,
                names_ok == forall|k: int|
                    0 <= k < metadata.license_files@.len() ==> license_name(
                        #[trigger] metadata.license_files@[k]@,
                    ).len() > 0,
                forall|k: int| #![all_triggers]
                    0 <= k < i ==> (!pre.excluded(license_target(*metadata, k)) && !pre.excluded(
                        metadata.license_files@[k]@,
                    ) && !pre.self_source(metadata.license_files@[k]@) ==> contains_path(
                        writer.entries(),
                        pre.stored_path(license_target(*metadata, k)),
                    )),
            decreases metadata.license_files@.len() - i,
        {
            let ghost wl = *writer;
            let lic = &metadata.license_files[i];
            let stripped = strip_trailing_exec(lic.as_str(), '/');
            let filename = after_last_exec(stripped.as_str(), '/');
            let lic_target = path_join(license_dir.as_str(), filename.as_str());
            proof {
                assert(lic_target@ == license_target(*metadata, i as int));
            }
            let rl = writer.add_file(lic_target.as_str(), lic.as_str());
            proof {
                W::config_trans(writer, &wl, &pre);
            }
            match rl {
                Ok(()) => {},
                Err(e) => {
                    return Err(e);
                },
            }
            proof {
                lemma_file_step(
                    &pre,
                    &wl,
                    writer,
                    license_target(*metadata, i as int),
                    metadata.license_files@[i as int]@,
                );
                lemma_extend_trans(pre.entries(), wl.entries(), writer.entries());
                lemma_extend_trans(w3.entries(), wl.entries(), writer.entries());
                assert forall|k: int|
                    0 <= k < i + 1 implies (!pre.excluded(license_target(*metadata, k))
                    && !pre.excluded(metadata.license_files@[k]@) && !pre.self_source(
                    metadata.license_files@[k]@,
                ) ==> contains_path(
                    writer.entries(),
                    pre.stored_path(license_target(*metadata, k)),
                )) by {
                    if k < i {
                        if !pre.excluded(license_target(*metadata, k)) && !pre.excluded(
                            metadata.license_files@[k]@,
                        ) && !pre.self_source(metadata.license_files@[k]@) {
                            lemma_extend_preserves_contains(
                                wl.entries(),
                                writer.entries(),
                                pre.stored_path(license_target(*metadata, k)),
                            );
                        }
                    }
                }
                assert(dist_info_bounded(pre, *writer, *metadata));
            }
            i = i + 1;
        }
        proof {
            lemma_lift_partial(&pre, &w3, writer, *metadata, tags.deep_view());
        }
    } else {
        proof {
            assert(entries_extend(w3.entries(), writer.entries()));
            lemma_lift_partial(&pre, &w3, writer, *metadata, tags.deep_view());
        }
    }
    Ok(())
}

/// The part of `dist_info_written` that does not speak of license files.
pub open spec fn dist_info_partial<W: ModuleWriter>(
    pre: W,
    post: W,
    meta: PackageMetadata,
    tags: Seq<Seq<char>>,
) -> bool {
    let dd = dist_info_dir_chars(meta.name@, meta.version@);
    let mp = joined(dd, "METADATA"@);
    let wp = joined(dd, "WHEEL"@);
    let epp = joined(dd, "entry_points.txt"@);
    &&& (!pre.excluded(mp) ==> contains_path(post.entries(), pre.stored_path(mp)))
    &&& (!pre.excluded(wp) ==> contains_path(post.entries(), pre.stored_path(wp)))
    &&& (has_entry_points(meta) && !pre.excluded(epp) ==> contains_path(
        post.entries(),
        pre.stored_path(epp),
    ))
    &&& (!pre.excluded(mp) && !contains_path(pre.entries(), pre.stored_path(mp))
        ==> contains_entry(
        post.entries(),
        pre.stored_path(mp),
        encode_utf8(meta.metadata_file_contents@),
    ))
    &&& (!pre.excluded(wp) && !contains_path(pre.entries(), pre.stored_path(wp))
        && pre.stored_path(wp) != pre.stored_path(mp) ==> contains_entry(
        post.entries(),
        pre.stored_path(wp),
        encode_utf8(wheel_file_chars(tags)),
    ))
    &&& (has_entry_points(meta) && !pre.excluded(epp) && !contains_path(
        pre.entries(),
        pre.stored_path(epp),
    ) && pre.stored_path(epp) != pre.stored_path(mp) && pre.stored_path(epp) != pre.stored_path(
        wp,
    ) ==> contains_entry(
        post.entries(),
        pre.stored_path(epp),
        encode_utf8(all_entry_points_chars(meta)),
    ))
    &&& (!pre.excluded(mp) && !pre.excluded(wp) && !contains_path(
        pre.entries(),
        pre.stored_path(mp),
    ) && !contains_path(pre.entries(), pre.stored_path(wp)) && pre.stored_path(wp)
        != pre.stored_path(mp) ==> post.entries().len() >= pre.entries().len() + 2
        && post.entries()[pre.entries().len() as int].path == pre.stored_path(mp)
        && post.entries()[pre.entries().len() as int].content == encode_utf8(
        meta.metadata_file_contents@,
    ) && post.entries()[pre.entries().len() as int + 1].path == pre.stored_path(wp)
        && post.entries()[pre.entries().len() as int + 1].content == encode_utf8(wheel_file_chars(tags)))
}

/// Lifts the pre-license facts across the license-file writes: what was
/// present stays present.
proof fn lemma_lift_partial<W: ModuleWriter>(
    pre: &W,
    mid: &W,
    post: &W,
    meta: PackageMetadata,
    tags: Seq<Seq<char>>,
)
    requires
        dist_info_partial(*pre, *mid, meta, tags),
        entries_extend(mid.entries(), post.entries()),
        forall|k: int| #![all_triggers]
            0 <= k < meta.license_files@.len() ==> (!pre.excluded(license_target(meta, k))
                && !pre.excluded(meta.license_files@[k]@) && !pre.self_source(
                meta.license_files@[k]@,
            ) ==> contains_path(post.entries(), pre.stored_path(license_target(meta, k)))),
    ensures
        dist_info_written(*pre, *post, meta, tags),
{
    let dd = dist_info_dir_chars(meta.name@, meta.version@);
    let mp = joined(dd, "METADATA"@);
    let wp = joined(dd, "WHEEL"@);
    let epp = joined(dd, "entry_points.txt"@);
    if !pre.excluded(mp) {
        lemma_extend_preserves_contains(mid.entries(), post.entries(), pre.stored_path(mp));
    }
    if !pre.excluded(wp) {
        lemma_extend_preserves_contains(mid.entries(), post.entries(), pre.stored_path(wp));
    }
    if has_entry_points(meta) && !pre.excluded(epp) {
        lemma_extend_preserves_contains(mid.entries(), post.entries(), pre.stored_path(epp));
    }
    if !pre.excluded(mp) && !contains_path(pre.entries(), pre.stored_path(mp)) {
        lemma_extend_preserves_entry(
            mid.entries(),
            post.entries(),
            pre.stored_path(mp),
            encode_utf8(meta.metadata_file_contents@),
        );
    }
    if !pre.excluded(wp) && !contains_path(pre.entries(), pre.stored_path(wp)) && pre.stored_path(
        wp,
    ) != pre.stored_path(mp) {
        lemma_extend_preserves_entry(
            mid.entries(),
            post.entries(),
            pre.stored_path(wp),
            encode_utf8(wheel_file_chars(tags)),
        );
    }
    if has_entry_points(meta) && !pre.excluded(epp) && !contains_path(
        pre.entries(),
        pre.stored_path(epp),
    ) && pre.stored_path(epp) != pre.stored_path(mp) && pre.stored_path(epp) != pre.stored_path(
        wp,
    ) {
        lemma_extend_preserves_entry(
            mid.entries(),
            post.entries(),
            pre.stored_path(epp),
            encode_utf8(all_entry_points_chars(meta)),
        );
    }
    if !pre.excluded(mp) && !pre.excluded(wp) && !contains_path(pre.entries(), pre.stored_path(mp))
        && !contains_path(pre.entries(), pre.stored_path(wp)) && pre.stored_path(wp)
        != pre.stored_path(mp) {
        lemma_extend_preserves_index(mid.entries(), post.entries(), pre.entries().len() as int);
        lemma_extend_preserves_index(mid.entries(), post.entries(), pre.entries().len() as int + 1);
    }
}

} // verus!
