//! The materializer: walks a workspace's template subtree, classifies each
//! file as template or static, routes templates through group-level variant
//! selection and the render contract, and plans the resulting writes.
//! Executing the plan (creating directories, writing and copying files) is
//! left to the caller; everything decided here is verified, and the plan of
//! a given listing is pinned by `cmds_match_listing`: every admitted static
//! file yields exactly one copy at the joined paths, every chosen template
//! at most one write at its logical destination, in listing order, and
//! nothing else.

use vstd::prelude::*;

use crate::engine::{engine_render, RenderContext};
use crate::text::{
    all_whitespace, concat_str, contains_char, is_prefix_of, joined, path_join, starts_with_str,
};
use crate::variant::{
    base_variant, copies_file, group_has, is_template_file, is_template_name, known_variant,
    lemma_group_has_witness, lemma_known_variant_parts, lemma_manifest_selection, logical_of,
    manifest_name, manifest_template_name, rendered_output, select_candidate, should_copy,
    supported_pm, template_core, template_output, template_written, trailing_tag,
};
use crate::walk::{files_have_prefix, walk_all, walk_children, WalkedEntry};
use crate::workspace::Workspace;
use crate::FatalError;

verus! {

/// One planned write: either the rendered text of a template, or a
/// byte-for-byte copy of a static file.
pub enum WriteCmd {
    /// Write `contents` to `dest`.
    Rendered {
        /// Full destination path of the file.
        dest: String,
        /// The rendered text to write.
        contents: String,
    },
    /// Copy the file at `source` to `dest`, byte for byte.
    Copied {
        /// Full path of the static source file.
        source: String,
        /// Full destination path of the file.
        dest: String,
    },
}

impl WriteCmd {
    /// The destination path of the planned write.
    pub open spec fn dest_view(&self) -> Seq<char> {
        match self {
            WriteCmd::Rendered { dest, .. } => dest@,
            WriteCmd::Copied { dest, .. } => dest@,
        }
    }
}

/// A root workspace handles only names directly under its source.
pub open spec fn rel_ok(name: Seq<char>, is_root: bool) -> bool {
    is_root ==> !name.contains('/')
}

/// The listing admits this name as a template to render: it is a template
/// the selector chooses, at an admissible depth.
pub open spec fn admitted_template(
    name: Seq<char>,
    all: Seq<Seq<char>>,
    is_root: bool,
    pm: Seq<char>,
) -> bool {
    crate::variant::selected(name, all, is_root, pm) && rel_ok(name, is_root)
}

/// The listing admits this name as a static file to copy.
pub open spec fn admitted_copy(name: Seq<char>, is_root: bool, pm: Seq<char>) -> bool {
    !is_template_name(name) && copies_file(name, is_root, pm) && rel_ok(name, is_root)
}

/// The write of a chosen template: a rendering that is not all whitespace,
/// landing at the logical destination under the workspace's destination
/// root.
pub open spec fn rendered_matches(cmd: WriteCmd, name: Seq<char>, dest_root: Seq<char>) -> bool {
    match cmd {
        WriteCmd::Rendered { dest, contents } => match template_output(name, contents@) {
            Some(d) => dest@ == joined(dest_root, d),
            None => false,
        },
        WriteCmd::Copied { .. } => false,
    }
}

/// The copy of a static file: from the file under the source root to the
/// same relative name under the destination root.
pub open spec fn copied_matches(
    cmd: WriteCmd,
    name: Seq<char>,
    source_root: Seq<char>,
    dest_root: Seq<char>,
) -> bool {
    match cmd {
        WriteCmd::Copied { source, dest } => source@ == joined(source_root, name) && dest@
            == joined(dest_root, name),
        WriteCmd::Rendered { .. } => false,
    }
}

/// The plan of a listing, name by name: every admitted static file yields
/// exactly one copy, every chosen template at most one write (its
/// rendering may be suppressed), everything else nothing — in listing
/// order, with no write the listing does not justify. `rem` is the part of
/// the listing still to process; `all` is the whole listing, which group
/// selection consults.
pub open spec fn cmds_match_listing(
    cmds: Seq<WriteCmd>,
    rem: Seq<Seq<char>>,
    all: Seq<Seq<char>>,
    is_root: bool,
    src: Seq<char>,
    dst: Seq<char>,
    pm: Seq<char>,
) -> bool
    decreases rem.len(),
{
    if rem.len() == 0 {
        cmds.len() == 0
    } else {
        let name = rem.first();
        if admitted_template(name, all, is_root, pm) {
            ||| cmds_match_listing(cmds, rem.drop_first(), all, is_root, src, dst, pm)
            ||| (cmds.len() > 0 && rendered_matches(cmds.first(), name, dst)
                && cmds_match_listing(cmds.drop_first(), rem.drop_first(), all, is_root, src, dst, pm))
        } else if admitted_copy(name, is_root, pm) {
            &&& cmds.len() > 0
            &&& copied_matches(cmds.first(), name, src, dst)
            &&& cmds_match_listing(cmds.drop_first(), rem.drop_first(), all, is_root, src, dst, pm)
        } else {
            cmds_match_listing(cmds, rem.drop_first(), all, is_root, src, dst, pm)
        }
    }
}

/// Extending a matching plan by one listing entry and its writes keeps it
/// matching.
proof fn lemma_match_snoc(
    cmds: Seq<WriteCmd>,
    extra: Seq<WriteCmd>,
    pre: Seq<Seq<char>>,
    name: Seq<char>,
    all: Seq<Seq<char>>,
    is_root: bool,
    src: Seq<char>,
    dst: Seq<char>,
    pm: Seq<char>,
)
    requires
        cmds_match_listing(cmds, pre, all, is_root, src, dst, pm),
        if admitted_template(name, all, is_root, pm) {
            extra.len() == 0 || (extra.len() == 1 && rendered_matches(extra[0], name, dst))
        } else if admitted_copy(name, is_root, pm) {
            extra.len() == 1 && copied_matches(extra[0], name, src, dst)
        } else {
            extra.len() == 0
        },
    ensures
        cmds_match_listing(cmds + extra, pre.push(name), all, is_root, src, dst, pm),
    decreases pre.len(),
{
    if pre.len() == 0 {
        assert(cmds.len() == 0);
        assert(cmds + extra =~= extra);
        assert(pre.push(name).first() == name);
        assert(pre.push(name).drop_first() =~= Seq::<Seq<char>>::empty());
        let empty_rem = Seq::<Seq<char>>::empty();
        assert(cmds_match_listing(extra, empty_rem, all, is_root, src, dst, pm) <==> extra.len()
            == 0);
        if extra.len() == 1 {
            assert(extra.first() == extra[0]);
            assert(extra.drop_first() =~= Seq::<WriteCmd>::empty());
            assert(cmds_match_listing(extra.drop_first(), empty_rem, all, is_root, src, dst, pm));
        }
    } else {
        let head = pre.first();
        assert(pre.push(name).first() == head);
        assert(pre.push(name).drop_first() =~= pre.drop_first().push(name));
        if admitted_template(head, all, is_root, pm) {
            if cmds_match_listing(cmds, pre.drop_first(), all, is_root, src, dst, pm) {
                lemma_match_snoc(cmds, extra, pre.drop_first(), name, all, is_root, src, dst, pm);
            } else {
                lemma_match_snoc(
                    cmds.drop_first(),
                    extra,
                    pre.drop_first(),
                    name,
                    all,
                    is_root,
                    src,
                    dst,
                    pm,
                );
                assert((cmds + extra).first() == cmds.first());
                assert((cmds + extra).drop_first() =~= cmds.drop_first() + extra);
            }
        } else if admitted_copy(head, is_root, pm) {
            lemma_match_snoc(
                cmds.drop_first(),
                extra,
                pre.drop_first(),
                name,
                all,
                is_root,
                src,
                dst,
                pm,
            );
            assert((cmds + extra).first() == cmds.first());
            assert((cmds + extra).drop_first() =~= cmds.drop_first() + extra);
        } else {
            lemma_match_snoc(cmds, extra, pre.drop_first(), name, all, is_root, src, dst, pm);
        }
    }
}

/// The relative names of the file entries of a walk, in walk order.
pub open spec fn rel_files_spec(entries: Seq<WalkedEntry>, root: Seq<char>) -> Seq<Seq<char>>
    decreases entries.len(),
{
    if entries.len() == 0 {
        Seq::empty()
    } else {
        rel_files_spec(entries.drop_last(), root) + (if entries.last().is_file {
            seq![
                entries.last().path@.subrange(
                    root.len() + 1 as int,
                    entries.last().path@.len() as int,
                ),
            ]
        } else {
            Seq::empty()
        })
    }
}

/// The relative names of the walked files: succeeds exactly when every
/// file of the walk lies under the workspace source, and then returns each
/// file's path with the source prefix stripped, in walk order.
pub fn relative_files(entries: &Vec<WalkedEntry>, root: &str) -> (r: Result<
    Vec<String>,
    FatalError,
>)
    ensures
        r is Ok <==> files_have_prefix(entries@, root@),
        r matches Ok(v) ==> v.deep_view() == rel_files_spec(entries@, root@),
        r matches Err(e) ==> e is Filesystem,
{
    let rootlen = root.unicode_len();
    let prefix = concat_str(root, "/");
    proof {
        reveal_strlit("/");
        assert(prefix@ =~= root@ + seq!['/']);
    }
    let n = entries.len();
    let mut v: Vec<String> = Vec::new();
    proof {
        assert(entries@.subrange(0, 0) =~= Seq::<WalkedEntry>::empty());
        assert(v.deep_view() =~= Seq::<Seq<char>>::empty());
    }
    let mut i: usize = 0;
    while i < n
        invariant
            n == entries@.len(),
            i <= n,
            rootlen == root@.len(),
            prefix@ == root@ + seq!['/'],
            v.deep_view() == rel_files_spec(entries@.subrange(0, i as int), root@),
            forall|j: int|
                0 <= j < i ==> ((#[trigger] entries@[j]).is_file ==> is_prefix_of(
                    root@ + seq!['/'],
                    entries@[j].path@,
                )),
        decreases n - i,
    {
        let ghost pre = entries@.subrange(0, i as int);
        let e = &entries[i];
        if e.is_file {
            let p = e.path.as_str();
            let plen = p.unicode_len();
            if !starts_with_str(p, prefix.as_str()) {
                proof {
                    assert(!files_have_prefix(entries@, root@));
                }
                return Err(
                    FatalError::Filesystem("entry is outside the workspace source".to_owned()),
                );
            }
            let rel = p.substring_char(rootlen + 1, plen);
            let ghost old_v = v.deep_view();
            v.push(rel.to_owned());
            proof {
                assert(v.deep_view() =~= old_v + seq![
                    entries@[i as int].path@.subrange(
                        root@.len() + 1 as int,
                        entries@[i as int].path@.len() as int,
                    ),
                ]);
            }
        }
        proof {
            let pre1 = entries@.subrange(0, i + 1 as int);
            assert(pre1.drop_last() =~= pre);
            assert(pre1.last() == entries@[i as int]);
            if !entries@[i as int].is_file {
                assert(v.deep_view() =~= rel_files_spec(pre, root@) + Seq::<Seq<char>>::empty());
            }
        }
        i += 1;
    }
    proof {
        assert(entries@.subrange(0, n as int) =~= entries@);
    }
    Ok(v)
}

/// The prefix every render failure's diagnostic carries: it names the
/// failing template.
pub open spec fn render_error_prefix(name: Seq<char>) -> Seq<char> {
    "Failed to render template "@ + name + ": "@
}

/// Renders one chosen template through the render contract and decides
/// what it produces: a write at its logical destination, or nothing when
/// the rendering is all whitespace. A render failure is fatal and its
/// message names the template.
pub fn process_template(
    ws: &Workspace,
    engine: &tera::Tera,
    rc: &RenderContext,
    rel: &str,
) -> (r: Result<Option<WriteCmd>, FatalError>)
    requires
        is_template_name(rel@),
    ensures
        match r {
            Ok(Some(cmd)) => rendered_matches(cmd, rel@, ws.dest_path@),
            Ok(None) => true,
            Err(e) => e is Render && is_prefix_of(render_error_prefix(rel@), e.text()),
        },
{
    let rendered = match engine_render(engine, rel, &rc.raw) {
        Ok(s) => s,
        Err(m) => {
            let framed = concat_str(
                concat_str(concat_str("Failed to render template ", rel).as_str(), ": ").as_str(),
                m.as_str(),
            );
            proof {
                assert(framed@.subrange(0, render_error_prefix(rel@).len() as int)
                    =~= render_error_prefix(rel@));
            }
            return Err(FatalError::Render(framed));
        },
    };
    match rendered_output(rel, rendered.as_str()) {
        Some(dest_rel) => {
            let dest = path_join(ws.dest_path.as_str(), dest_rel.as_str());
            Ok(Some(WriteCmd::Rendered { dest, contents: rendered }))
        },
        None => Ok(None),
    }
}

/// Plans the copy of one static file, or skips it when the selector says
/// so: a planned copy is exactly the given file, landing at the same
/// relative name under the destination root.
pub fn copy_non_template_file(ws: &Workspace, pm: &str, rel: &str) -> (r: Option<WriteCmd>)
    requires
        !is_template_name(rel@),
    ensures
        r matches Some(cmd) ==> copies_file(rel@, ws.is_root, pm@) && copied_matches(
            cmd,
            rel@,
            ws.source_path@,
            ws.dest_path@,
        ),
        r is None <==> !copies_file(rel@, ws.is_root, pm@),
{
    if should_copy(rel, ws.is_root, pm) {
        let source = path_join(ws.source_path.as_str(), rel);
        let dest = path_join(ws.dest_path.as_str(), rel);
        Some(WriteCmd::Copied { source, dest })
    } else {
        None
    }
}

/// Plans the writes of one workspace listing: each name is classified as
/// template or static, templates go through group-level variant selection
/// and the render contract, static files are copied. The plan matches the
/// listing exactly: every admitted static file yields one copy, every
/// chosen template at most one write, in listing order, and nothing else.
/// A render failure is the only error.
pub fn plan_listing(
    rel_files: &Vec<String>,
    engine: &tera::Tera,
    rc: &RenderContext,
    ws: &Workspace,
    pm: &str,
) -> (r: Result<Vec<WriteCmd>, FatalError>)
    ensures
        r matches Ok(cmds) ==> cmds_match_listing(
            cmds@,
            rel_files.deep_view(),
            rel_files.deep_view(),
            ws.is_root,
            ws.source_path@,
            ws.dest_path@,
            pm@,
        ),
        r matches Err(e) ==> e is Render,
{
    let ghost all = rel_files.deep_view();
    let n = rel_files.len();
    let mut cmds: Vec<WriteCmd> = Vec::new();
    proof {
        assert(all.subrange(0, 0) =~= Seq::<Seq<char>>::empty());
        assert(cmds_match_listing(
            cmds@,
            Seq::<Seq<char>>::empty(),
            all,
            ws.is_root,
            ws.source_path@,
            ws.dest_path@,
            pm@,
        ));
    }
    let mut i: usize = 0;
    while i < n
        invariant
            n == all.len(),
            i <= n,
            all == rel_files.deep_view(),
            cmds_match_listing(
                cmds@,
                all.subrange(0, i as int),
                all,
                ws.is_root,
                ws.source_path@,
                ws.dest_path@,
                pm@,
            ),
        decreases n - i,
    {
        let ghost pre = all.subrange(0, i as int);
        let name = rel_files[i].as_str();
        proof {
            assert(all[i as int] == rel_files@[i as int]@);
        }
        let ghost old_cmds = cmds@;
        if ws.is_root && contains_char(name, '/') {
            // the walker already limits the root traversal to its immediate
            // children; the plan states that as a fact about itself
            proof {
                assert(!admitted_template(all[i as int], all, ws.is_root, pm@));
                assert(!admitted_copy(all[i as int], ws.is_root, pm@));
                lemma_match_snoc(
                    old_cmds,
                    Seq::empty(),
                    pre,
                    all[i as int],
                    all,
                    ws.is_root,
                    ws.source_path@,
                    ws.dest_path@,
                    pm@,
                );
                assert(old_cmds + Seq::<WriteCmd>::empty() =~= cmds@);
            }
        } else if is_template_file(name) {
            if select_candidate(name, rel_files, ws.is_root, pm) {
                match process_template(ws, engine, rc, name) {
                    Ok(Some(cmd)) => {
                        proof {
                            assert(admitted_template(all[i as int], all, ws.is_root, pm@));
                        }
                        cmds.push(cmd);
                        proof {
                            lemma_match_snoc(
                                old_cmds,
                                seq![cmd],
                                pre,
                                all[i as int],
                                all,
                                ws.is_root,
                                ws.source_path@,
                                ws.dest_path@,
                                pm@,
                            );
                            assert(old_cmds + seq![cmd] =~= cmds@);
                        }
                    },
                    Ok(None) => {
                        proof {
                            lemma_match_snoc(
                                old_cmds,
                                Seq::empty(),
                                pre,
                                all[i as int],
                                all,
                                ws.is_root,
                                ws.source_path@,
                                ws.dest_path@,
                                pm@,
                            );
                            assert(old_cmds + Seq::<WriteCmd>::empty() =~= cmds@);
                        }
                    },
                    Err(e) => {
                        return Err(e);
                    },
                }
            } else {
                proof {
                    assert(!admitted_template(all[i as int], all, ws.is_root, pm@));
                    assert(!admitted_copy(all[i as int], ws.is_root, pm@));
                    lemma_match_snoc(
                        old_cmds,
                        Seq::empty(),
                        pre,
                        all[i as int],
                        all,
                        ws.is_root,
                        ws.source_path@,
                        ws.dest_path@,
                        pm@,
                    );
                    assert(old_cmds + Seq::<WriteCmd>::empty() =~= cmds@);
                }
            }
        } else {
            match copy_non_template_file(ws, pm, name) {
                Some(cmd) => {
                    proof {
                        assert(admitted_copy(all[i as int], ws.is_root, pm@));
                    }
                    cmds.push(cmd);
                    proof {
                        lemma_match_snoc(
                            old_cmds,
                            seq![cmd],
                            pre,
                            all[i as int],
                            all,
                            ws.is_root,
                            ws.source_path@,
                            ws.dest_path@,
                            pm@,
                        );
                        assert(old_cmds + seq![cmd] =~= cmds@);
                    }
                },
                None => {
                    proof {
                        assert(!admitted_template(all[i as int], all, ws.is_root, pm@));
                        assert(!admitted_copy(all[i as int], ws.is_root, pm@));
                        lemma_match_snoc(
                            old_cmds,
                            Seq::empty(),
                            pre,
                            all[i as int],
                            all,
                            ws.is_root,
                            ws.source_path@,
                            ws.dest_path@,
                            pm@,
                        );
                        assert(old_cmds + Seq::<WriteCmd>::empty() =~= cmds@);
                    }
                },
            }
        }
        proof {
            assert(all.subrange(0, i + 1 as int) =~= pre.push(all[i as int]));
        }
        i += 1;
    }
    proof {
        assert(all.subrange(0, n as int) =~= all);
    }
    Ok(cmds)
}

/// Materializes one workspace into a plan of writes: enumerates the files
/// of its template subtree (only the immediate children for the root
/// workspace), derives their relative names, and plans the listing. Any
/// unreadable entry, foreign path or render failure is fatal; selector
/// skips and suppressed renderings are not.
pub fn process_workspace(
    ws: &Workspace,
    engine: &tera::Tera,
    rc: &RenderContext,
    pm: &str,
) -> (r: Result<Vec<WriteCmd>, FatalError>)
    ensures
        r matches Ok(cmds) ==> exists|names: Seq<Seq<char>>|
            #[trigger] cmds_match_listing(
                cmds@,
                names,
                names,
                ws.is_root,
                ws.source_path@,
                ws.dest_path@,
                pm@,
            ),
        r matches Err(e) ==> e is Filesystem || e is Render,
{
    let entries: Vec<WalkedEntry> = if ws.is_root {
        match walk_children(ws.source_path.as_str()) {
            Ok(v) => v,
            Err(m) => return Err(FatalError::Filesystem(m)),
        }
    } else {
        match walk_all(ws.source_path.as_str()) {
            Ok(v) => v,
            Err(m) => return Err(FatalError::Filesystem(m)),
        }
    };
    let rel_files = match relative_files(&entries, ws.source_path.as_str()) {
        Ok(v) => v,
        Err(e) => return Err(e),
    };
    match plan_listing(&rel_files, engine, rc, ws, pm) {
        Ok(cmds) => {
            proof {
                assert(cmds_match_listing(
                    cmds@,
                    rel_files.deep_view(),
                    rel_files.deep_view(),
                    ws.is_root,
                    ws.source_path@,
                    ws.dest_path@,
                    pm@,
                ));
            }
            Ok(cmds)
        },
        Err(e) => Err(e),
    }
}

/// The model of one materialization run: what one listed name produces,
/// given the rendered text of every template (`renders` maps a template
/// name to its rendering) and the whole listing (which group selection
/// consults). `None` means nothing is written for the name.
pub open spec fn entry_dest(
    name: Seq<char>,
    all: Seq<Seq<char>>,
    is_root: bool,
    pm: Seq<char>,
    renders: Map<Seq<char>, Seq<char>>,
) -> Option<Seq<char>> {
    if is_root && name.contains('/') {
        None
    } else if is_template_name(name) {
        template_written(name, all, is_root, pm, renders[name])
    } else if copies_file(name, is_root, pm) {
        Some(name)
    } else {
        None
    }
}

/// The ordered destinations a listing produces under the model.
pub open spec fn planned_dests(
    rem: Seq<Seq<char>>,
    all: Seq<Seq<char>>,
    is_root: bool,
    pm: Seq<char>,
    renders: Map<Seq<char>, Seq<char>>,
) -> Seq<Seq<char>>
    decreases rem.len(),
{
    if rem.len() == 0 {
        Seq::empty()
    } else {
        let rest = planned_dests(rem.drop_first(), all, is_root, pm, renders);
        match entry_dest(rem.first(), all, is_root, pm, renders) {
            Some(d) => seq![d] + rest,
            None => rest,
        }
    }
}

/// Materialization is deterministic: the model is a function of the
/// listing, the rendered texts, the workspace kind and the package manager
/// alone, so two runs over the same inputs plan the same destinations.
pub proof fn lemma_materialization_deterministic(
    names1: Seq<Seq<char>>,
    names2: Seq<Seq<char>>,
    renders1: Map<Seq<char>, Seq<char>>,
    renders2: Map<Seq<char>, Seq<char>>,
    is_root: bool,
    pm: Seq<char>,
)
    requires
        names1 == names2,
        renders1 == renders2,
    ensures
        planned_dests(names1, names1, is_root, pm, renders1) == planned_dests(
            names2,
            names2,
            is_root,
            pm,
            renders2,
        ),
{
}

/// The copies of a plan, in order: the executable counterpart of the
/// model's static part.
pub open spec fn copied_seq(cmds: Seq<WriteCmd>) -> Seq<(Seq<char>, Seq<char>)>
    decreases cmds.len(),
{
    if cmds.len() == 0 {
        Seq::empty()
    } else {
        let rest = copied_seq(cmds.drop_first());
        match cmds.first() {
            WriteCmd::Copied { source, dest } => seq![(source@, dest@)] + rest,
            WriteCmd::Rendered { .. } => rest,
        }
    }
}

/// Determinism of the executable static part: any two plans matching the
/// same listing carry the same copies, in the same order, whatever their
/// renderings did.
pub proof fn lemma_copies_deterministic(
    cmds1: Seq<WriteCmd>,
    cmds2: Seq<WriteCmd>,
    rem: Seq<Seq<char>>,
    all: Seq<Seq<char>>,
    is_root: bool,
    src: Seq<char>,
    dst: Seq<char>,
    pm: Seq<char>,
)
    requires
        cmds_match_listing(cmds1, rem, all, is_root, src, dst, pm),
        cmds_match_listing(cmds2, rem, all, is_root, src, dst, pm),
    ensures
        copied_seq(cmds1) == copied_seq(cmds2),
    decreases rem.len(),
{
    if rem.len() == 0 {
        assert(copied_seq(cmds1) =~= copied_seq(cmds2));
    } else {
        let name = rem.first();
        if admitted_template(name, all, is_root, pm) {
            let skip1 = cmds_match_listing(cmds1, rem.drop_first(), all, is_root, src, dst, pm);
            let skip2 = cmds_match_listing(cmds2, rem.drop_first(), all, is_root, src, dst, pm);
            if !skip1 {
                // the first plan consumed a rendered write here
                assert(copied_seq(cmds1) == copied_seq(cmds1.drop_first()));
            }
            if !skip2 {
                assert(copied_seq(cmds2) == copied_seq(cmds2.drop_first()));
            }
            if skip1 && skip2 {
                lemma_copies_deterministic(cmds1, cmds2, rem.drop_first(), all, is_root, src, dst, pm);
            } else if skip1 && !skip2 {
                lemma_copies_deterministic(
                    cmds1,
                    cmds2.drop_first(),
                    rem.drop_first(),
                    all,
                    is_root,
                    src,
                    dst,
                    pm,
                );
            } else if !skip1 && skip2 {
                lemma_copies_deterministic(
                    cmds1.drop_first(),
                    cmds2,
                    rem.drop_first(),
                    all,
                    is_root,
                    src,
                    dst,
                    pm,
                );
            } else {
                lemma_copies_deterministic(
                    cmds1.drop_first(),
                    cmds2.drop_first(),
                    rem.drop_first(),
                    all,
                    is_root,
                    src,
                    dst,
                    pm,
                );
            }
        } else if admitted_copy(name, is_root, pm) {
            lemma_copies_deterministic(
                cmds1.drop_first(),
                cmds2.drop_first(),
                rem.drop_first(),
                all,
                is_root,
                src,
                dst,
                pm,
            );
            assert(copied_seq(cmds1) =~= copied_seq(cmds2));
        } else {
            lemma_copies_deterministic(cmds1, cmds2, rem.drop_first(), all, is_root, src, dst, pm);
        }
    }
}

/// How many entries of `dests` equal `d`.
pub open spec fn count_matching(dests: Seq<Seq<char>>, d: Seq<char>) -> nat
    decreases dests.len(),
{
    if dests.len() == 0 {
        0
    } else {
        (if dests.first() == d {
            1nat
        } else {
            0nat
        }) + count_matching(dests.drop_first(), d)
    }
}

/// The candidate that wins the root manifest group: the manager's when the
/// listing holds one, else the `base` fallback.
pub open spec fn root_manifest_winner(names: Seq<Seq<char>>, pm: Seq<char>) -> Seq<char> {
    if group_has(names, manifest_name(), pm) {
        manifest_template_name(pm)
    } else {
        manifest_template_name(base_variant())
    }
}

/// The standing premises of the exactly-one-manifest law: a supported
/// manager, every root-manifest template carrying a known variant tag, and
/// no plain file shadowing the manifest destination.
pub open spec fn manifest_premises(names: Seq<Seq<char>>, pm: Seq<char>) -> bool {
    &&& supported_pm(pm)
    &&& forall|i: int|
        0 <= i < names.len() && is_template_name(#[trigger] names[i]) && logical_of(names[i])
            == manifest_name() ==> exists|v: Seq<char>|
            known_variant(v) && names[i] == manifest_template_name(v)
    &&& !names.contains(manifest_name())
}

/// Which listed names write the root manifest: exactly the group's
/// winner, provided its rendering is not all whitespace.
proof fn lemma_entry_manifest(
    name: Seq<char>,
    names: Seq<Seq<char>>,
    pm: Seq<char>,
    renders: Map<Seq<char>, Seq<char>>,
    idx: int,
)
    requires
        manifest_premises(names, pm),
        0 <= idx < names.len(),
        names[idx] == name,
    ensures
        entry_dest(name, names, true, pm, renders) == Some(manifest_name()) <==> (name
            == root_manifest_winner(names, pm) && !all_whitespace(renders[name])),
{
    lemma_known_variant_parts(pm);
    lemma_known_variant_parts(base_variant());
    let winner = root_manifest_winner(names, pm);
    if name == winner && !all_whitespace(renders[name]) {
        if group_has(names, manifest_name(), pm) {
            lemma_manifest_selection(pm, pm, names, renders[name]);
        } else {
            lemma_manifest_selection(base_variant(), pm, names, renders[name]);
        }
    }
    if entry_dest(name, names, true, pm, renders) == Some(manifest_name()) {
        assert(!name.contains('/'));
        if is_template_name(name) {
            assert(template_written(name, names, true, pm, renders[name]) == Some(
                manifest_name(),
            ));
            assert(logical_of(name) == manifest_name());
            assert(!all_whitespace(renders[name]));
            assert(is_template_name(names[idx]) && logical_of(names[idx]) == manifest_name());
            let v = choose|v: Seq<char>|
                known_variant(v) && name == manifest_template_name(v);
            lemma_manifest_selection(v, pm, names, renders[name]);
            if v == pm {
                lemma_group_has_witness(names, pm, idx);
                assert(name == winner);
            } else {
                assert(v == base_variant() && !group_has(names, manifest_name(), pm));
                assert(name == winner);
            }
        } else {
            assert(name == manifest_name());
            assert(names.contains(manifest_name())) by {
                assert(names[idx] == manifest_name());
            }
            assert(false);
        }
    }
}

/// Counting the manifest writes of a listing suffix: one when the winner
/// is among it, none otherwise.
proof fn lemma_count_manifest(
    rem: Seq<Seq<char>>,
    names: Seq<Seq<char>>,
    pm: Seq<char>,
    renders: Map<Seq<char>, Seq<char>>,
)
    requires
        manifest_premises(names, pm),
        forall|i: int, j: int| 0 <= i < j < rem.len() ==> rem[i] != rem[j],
        forall|i: int|
            0 <= i < rem.len() ==> exists|k: int| 0 <= k < names.len() && names[k] == #[trigger] rem[i],
        !all_whitespace(renders[root_manifest_winner(names, pm)]),
    ensures
        count_matching(planned_dests(rem, names, true, pm, renders), manifest_name()) == (
        if exists|i: int| 0 <= i < rem.len() && #[trigger] rem[i] == root_manifest_winner(names, pm) {
            1nat
        } else {
            0nat
        }),
    decreases rem.len(),
{
    let winner = root_manifest_winner(names, pm);
    if rem.len() == 0 {
    } else {
        let first = rem.first();
        let rest = rem.drop_first();
        assert forall|i: int, j: int| 0 <= i < j < rest.len() implies rest[i] != rest[j] by {
            assert(rest[i] == rem[i + 1] && rest[j] == rem[j + 1]);
        }
        assert forall|i: int| 0 <= i < rest.len() implies exists|k: int|
            0 <= k < names.len() && names[k] == #[trigger] rest[i] by {
            assert(rest[i] == rem[i + 1]);
        }
        lemma_count_manifest(rest, names, pm, renders);
        let k = choose|k: int| 0 <= k < names.len() && names[k] == rem[0];
        lemma_entry_manifest(first, names, pm, renders, k);
        let dests = planned_dests(rem, names, true, pm, renders);
        let rest_dests = planned_dests(rest, names, true, pm, renders);
        match entry_dest(first, names, true, pm, renders) {
            Some(d) => {
                assert(dests == seq![d] + rest_dests);
                assert((seq![d] + rest_dests).first() == d);
                assert((seq![d] + rest_dests).drop_first() =~= rest_dests);
            },
            None => {},
        }
        if first == winner {
            assert(entry_dest(first, names, true, pm, renders) == Some(manifest_name()));
            if exists|i: int| 0 <= i < rest.len() && #[trigger] rest[i] == winner {
                let i = choose|i: int| 0 <= i < rest.len() && #[trigger] rest[i] == winner;
                assert(rest[i] == rem[i + 1]);
                assert(rem[i + 1] == rem[0]);
                assert(false);
            }
        } else {
            assert(entry_dest(first, names, true, pm, renders) != Some(manifest_name()));
            assert((exists|i: int| 0 <= i < rem.len() && #[trigger] rem[i] == winner) <==> (
            exists|i: int| 0 <= i < rest.len() && #[trigger] rest[i] == winner)) by {
                if exists|i: int| 0 <= i < rem.len() && #[trigger] rem[i] == winner {
                    let i = choose|i: int| 0 <= i < rem.len() && #[trigger] rem[i] == winner;
                    assert(i != 0);
                    assert(rest[i - 1] == rem[i]);
                }
                if exists|i: int| 0 <= i < rest.len() && #[trigger] rest[i] == winner {
                    let i = choose|i: int| 0 <= i < rest.len() && #[trigger] rest[i] == winner;
                    assert(rem[i + 1] == rest[i]);
                }
            }
        }
    }
}

/// Materializing the root workspace writes exactly one root manifest:
/// given a listing of distinct names in which every root manifest
/// candidate carries a known variant tag and no plain file shadows the
/// manifest destination, if the group holds the manager's candidate or the
/// `base` fallback, and the winner's rendering is not all whitespace, then
/// exactly one write lands at the canonical manifest name — never zero,
/// never more than one.
pub proof fn lemma_exactly_one_root_manifest(
    names: Seq<Seq<char>>,
    pm: Seq<char>,
    renders: Map<Seq<char>, Seq<char>>,
)
    requires
        manifest_premises(names, pm),
        forall|i: int, j: int| 0 <= i < j < names.len() ==> names[i] != names[j],
        group_has(names, manifest_name(), pm) || group_has(names, manifest_name(), base_variant()),
        !all_whitespace(renders[root_manifest_winner(names, pm)]),
    ensures
        count_matching(planned_dests(names, names, true, pm, renders), manifest_name()) == 1,
{
    let winner = root_manifest_winner(names, pm);
    lemma_known_variant_parts(pm);
    lemma_known_variant_parts(base_variant());
    // the winner is itself listed
    if group_has(names, manifest_name(), pm) {
        let i = choose|i: int|
            0 <= i < names.len() && is_template_name(#[trigger] names[i]) && logical_of(names[i])
                == manifest_name() && trailing_tag(template_core(names[i])) == Some(pm);
        let v = choose|v: Seq<char>| known_variant(v) && names[i] == manifest_template_name(v);
        lemma_known_variant_parts(v);
        assert(v == pm);
        assert(names[i] == winner);
    } else {
        let i = choose|i: int|
            0 <= i < names.len() && is_template_name(#[trigger] names[i]) && logical_of(names[i])
                == manifest_name() && trailing_tag(template_core(names[i])) == Some(base_variant());
        let v = choose|v: Seq<char>| known_variant(v) && names[i] == manifest_template_name(v);
        lemma_known_variant_parts(v);
        assert(v == base_variant());
        assert(names[i] == winner);
    }
    assert forall|i: int| 0 <= i < names.len() implies exists|k: int|
        0 <= k < names.len() && names[k] == #[trigger] names[i] by {
        assert(names[i] == names[i]);
    }
    lemma_count_manifest(names, names, pm, renders);
}

/// Every write of a matching plan lands under the destination root; a root
/// workspace write lands directly under it, with no separator in the part
/// after the root.
proof fn lemma_plan_dest_shape(
    cmds: Seq<WriteCmd>,
    rem: Seq<Seq<char>>,
    all: Seq<Seq<char>>,
    is_root: bool,
    src: Seq<char>,
    dst: Seq<char>,
    pm: Seq<char>,
    i: int,
)
    requires
        cmds_match_listing(cmds, rem, all, is_root, src, dst, pm),
        0 <= i < cmds.len(),
    ensures
        exists|d: Seq<char>|
            cmds[i].dest_view() == #[trigger] joined(dst, d) && (is_root ==> !d.contains('/')),
    decreases rem.len(),
{
    assert(rem.len() > 0);
    let name = rem.first();
    if admitted_template(name, all, is_root, pm) {
        if cmds_match_listing(cmds, rem.drop_first(), all, is_root, src, dst, pm) {
            lemma_plan_dest_shape(cmds, rem.drop_first(), all, is_root, src, dst, pm, i);
        } else {
            if i == 0 {
                let d = match template_output(name, (match cmds.first() {
                    WriteCmd::Rendered { contents, .. } => contents@,
                    WriteCmd::Copied { .. } => Seq::<char>::empty(),
                })) {
                    Some(d) => d,
                    None => Seq::<char>::empty(),
                };
                assert(cmds[0] == cmds.first());
                assert(cmds[i].dest_view() == joined(dst, d));
                assert(d == logical_of(name));
                if is_root {
                    assert(is_template_name(name));
                    assert(!name.contains('/'));
                    lemma_logical_no_slash(name);
                }
            } else {
                lemma_plan_dest_shape(
                    cmds.drop_first(),
                    rem.drop_first(),
                    all,
                    is_root,
                    src,
                    dst,
                    pm,
                    i - 1,
                );
                assert(cmds.drop_first()[i - 1] == cmds[i]);
            }
        }
    } else if admitted_copy(name, is_root, pm) {
        if i == 0 {
            assert(cmds[0] == cmds.first());
            assert(cmds[i].dest_view() == joined(dst, name));
        } else {
            lemma_plan_dest_shape(
                cmds.drop_first(),
                rem.drop_first(),
                all,
                is_root,
                src,
                dst,
                pm,
                i - 1,
            );
            assert(cmds.drop_first()[i - 1] == cmds[i]);
        }
    } else {
        lemma_plan_dest_shape(cmds, rem.drop_first(), all, is_root, src, dst, pm, i);
    }
}

/// The logical name of a template without a separator has none either.
proof fn lemma_logical_no_slash(name: Seq<char>)
    requires
        is_template_name(name),
        !name.contains('/'),
    ensures
        !logical_of(name).contains('/'),
{
    let core = template_core(name);
    let d = logical_of(name);
    if d.contains('/') {
        let k = choose|k: int| 0 <= k < d.len() && d[k] == '/';
        assert(d[k] == core[k]);
        assert(core[k] == name[k]);
        assert(name.contains('/')) by {
            assert(name[k] == '/');
        }
    }
}

/// Files that belong to a separately listed workspace are never written
/// twice: a root workspace write lands directly under the project root,
/// while a sub-workspace write lands strictly below that workspace's own
/// subdirectory, so their destinations can never coincide.
pub proof fn lemma_root_depth_limit(
    root_cmds: Seq<WriteCmd>,
    root_listing: Seq<Seq<char>>,
    sub_cmds: Seq<WriteCmd>,
    sub_listing: Seq<Seq<char>>,
    root_src: Seq<char>,
    sub_src: Seq<char>,
    pd: Seq<char>,
    sub_dir: Seq<char>,
    pm: Seq<char>,
    i: int,
    j: int,
)
    requires
        cmds_match_listing(root_cmds, root_listing, root_listing, true, root_src, pd, pm),
        cmds_match_listing(
            sub_cmds,
            sub_listing,
            sub_listing,
            false,
            sub_src,
            joined(pd, sub_dir),
            pm,
        ),
        0 <= i < root_cmds.len(),
        0 <= j < sub_cmds.len(),
    ensures
        root_cmds[i].dest_view() != sub_cmds[j].dest_view(),
{
    lemma_plan_dest_shape(root_cmds, root_listing, root_listing, true, root_src, pd, pm, i);
    lemma_plan_dest_shape(
        sub_cmds,
        sub_listing,
        sub_listing,
        false,
        sub_src,
        joined(pd, sub_dir),
        pm,
        j,
    );
    let d = choose|d: Seq<char>|
        root_cmds[i].dest_view() == #[trigger] joined(pd, d) && !d.contains('/');
    let x = choose|x: Seq<char>| sub_cmds[j].dest_view() == #[trigger] joined(joined(pd, sub_dir), x);
    if root_cmds[i].dest_view() == sub_cmds[j].dest_view() {
        let a = root_cmds[i].dest_view();
        assert(a == pd + seq!['/'] + d);
        assert(a == pd + seq!['/'] + sub_dir + seq!['/'] + x);
        assert(d =~= a.subrange(pd.len() + 1 as int, a.len() as int));
        assert((sub_dir + seq!['/'] + x) =~= a.subrange(pd.len() + 1 as int, a.len() as int));
        assert(d == sub_dir + seq!['/'] + x);
        assert(d[sub_dir.len() as int] == '/');
        assert(d.contains('/'));
        assert(false);
    }
}

/// A listed name that would write the root manifest: a chosen template of
/// the manifest group, or a plain file named like the manifest.
pub open spec fn claims_manifest(name: Seq<char>, all: Seq<Seq<char>>, pm: Seq<char>) -> bool {
    ||| (admitted_template(name, all, true, pm) && logical_of(name) == manifest_name())
    ||| (admitted_copy(name, true, pm) && name == manifest_name())
}

/// How many names of `rem` claim the root manifest.
pub open spec fn manifest_claimants(rem: Seq<Seq<char>>, all: Seq<Seq<char>>, pm: Seq<char>) -> nat
    decreases rem.len(),
{
    if rem.len() == 0 {
        0
    } else {
        (if claims_manifest(rem.first(), all, pm) {
            1nat
        } else {
            0nat
        }) + manifest_claimants(rem.drop_first(), all, pm)
    }
}

/// How many writes of a plan land at the root manifest destination.
pub open spec fn manifest_write_count(cmds: Seq<WriteCmd>, pd: Seq<char>) -> nat
    decreases cmds.len(),
{
    if cmds.len() == 0 {
        0
    } else {
        (if cmds.first().dest_view() == joined(pd, manifest_name()) {
            1nat
        } else {
            0nat
        }) + manifest_write_count(cmds.drop_first(), pd)
    }
}

/// A plan writes the manifest destination at most once per claimant of its
/// listing.
proof fn lemma_manifest_write_bound(
    cmds: Seq<WriteCmd>,
    rem: Seq<Seq<char>>,
    all: Seq<Seq<char>>,
    pm: Seq<char>,
    src: Seq<char>,
    pd: Seq<char>,
)
    requires
        cmds_match_listing(cmds, rem, all, true, src, pd, pm),
    ensures
        manifest_write_count(cmds, pd) <= manifest_claimants(rem, all, pm),
    decreases rem.len(),
{
    if rem.len() == 0 {
    } else {
        let name = rem.first();
        if admitted_template(name, all, true, pm) {
            if cmds_match_listing(cmds, rem.drop_first(), all, true, src, pd, pm) {
                lemma_manifest_write_bound(cmds, rem.drop_first(), all, pm, src, pd);
            } else {
                lemma_manifest_write_bound(cmds.drop_first(), rem.drop_first(), all, pm, src, pd);
                if cmds.first().dest_view() == joined(pd, manifest_name()) {
                    // the rendered destination is the logical name
                    let contents = (match cmds.first() {
                        WriteCmd::Rendered { contents, .. } => contents@,
                        WriteCmd::Copied { .. } => Seq::<char>::empty(),
                    });
                    assert(template_output(name, contents) == Some(logical_of(name)));
                    assert(cmds.first().dest_view() == joined(pd, logical_of(name)));
                    crate::text::lemma_joined_cancel(pd, logical_of(name), manifest_name());
                    assert(claims_manifest(name, all, pm));
                }
            }
        } else if admitted_copy(name, true, pm) {
            lemma_manifest_write_bound(cmds.drop_first(), rem.drop_first(), all, pm, src, pd);
            if cmds.first().dest_view() == joined(pd, manifest_name()) {
                assert(cmds.first().dest_view() == joined(pd, name));
                crate::text::lemma_joined_cancel(pd, name, manifest_name());
                assert(claims_manifest(name, all, pm));
            }
        } else {
            lemma_manifest_write_bound(cmds, rem.drop_first(), all, pm, src, pd);
        }
    }
}

/// Under the manifest premises, only the group's winner claims the
/// manifest destination.
proof fn lemma_claimant_is_winner(
    name: Seq<char>,
    names: Seq<Seq<char>>,
    pm: Seq<char>,
    idx: int,
)
    requires
        manifest_premises(names, pm),
        0 <= idx < names.len(),
        names[idx] == name,
        claims_manifest(name, names, pm),
    ensures
        name == root_manifest_winner(names, pm),
{
    lemma_known_variant_parts(pm);
    lemma_known_variant_parts(base_variant());
    if admitted_copy(name, true, pm) && name == manifest_name() {
        assert(names.contains(manifest_name())) by {
            assert(names[idx] == manifest_name());
        }
        assert(false);
    }
    assert(admitted_template(name, names, true, pm) && logical_of(name) == manifest_name());
    assert(is_template_name(names[idx]) && logical_of(names[idx]) == manifest_name());
    let v = choose|v: Seq<char>| known_variant(v) && name == manifest_template_name(v);
    lemma_known_variant_parts(v);
    assert(trailing_tag(template_core(name)) == Some(v));
    if v == pm {
        lemma_group_has_witness(names, pm, idx);
    } else {
        assert(v == base_variant() && !group_has(names, manifest_name(), pm));
    }
}

/// At most one claimant stands in a suffix of a distinct listing.
proof fn lemma_claimants_bound(
    rem: Seq<Seq<char>>,
    names: Seq<Seq<char>>,
    pm: Seq<char>,
)
    requires
        manifest_premises(names, pm),
        forall|i: int, j: int| 0 <= i < j < rem.len() ==> rem[i] != rem[j],
        forall|i: int|
            0 <= i < rem.len() ==> exists|k: int| 0 <= k < names.len() && names[k] == #[trigger] rem[i],
    ensures
        manifest_claimants(rem, names, pm) <= 1,
    decreases rem.len(),
{
    if rem.len() > 0 {
        let first = rem.first();
        let rest = rem.drop_first();
        assert forall|i: int, j: int| 0 <= i < j < rest.len() implies rest[i] != rest[j] by {
            assert(rest[i] == rem[i + 1] && rest[j] == rem[j + 1]);
        }
        assert forall|i: int| 0 <= i < rest.len() implies exists|k: int|
            0 <= k < names.len() && names[k] == #[trigger] rest[i] by {
            assert(rest[i] == rem[i + 1]);
        }
        lemma_claimants_bound(rest, names, pm);
        if claims_manifest(first, names, pm) {
            let k = choose|k: int| 0 <= k < names.len() && names[k] == rem[0];
            lemma_claimant_is_winner(first, names, pm, k);
            // no later entry can be the winner too
            assert(manifest_claimants(rest, names, pm) == 0) by {
                lemma_claimants_none(rest, names, pm, first);
            }
        }
    }
}

/// A suffix avoiding the winner holds no claimant.
proof fn lemma_claimants_none(
    rem: Seq<Seq<char>>,
    names: Seq<Seq<char>>,
    pm: Seq<char>,
    winner: Seq<char>,
)
    requires
        manifest_premises(names, pm),
        winner == root_manifest_winner(names, pm),
        forall|i: int| 0 <= i < rem.len() ==> rem[i] != winner,
        forall|i: int|
            0 <= i < rem.len() ==> exists|k: int| 0 <= k < names.len() && names[k] == #[trigger] rem[i],
    ensures
        manifest_claimants(rem, names, pm) == 0,
    decreases rem.len(),
{
    if rem.len() > 0 {
        let first = rem.first();
        let rest = rem.drop_first();
        assert forall|i: int| 0 <= i < rest.len() implies rest[i] != winner by {
            assert(rest[i] == rem[i + 1]);
        }
        assert forall|i: int| 0 <= i < rest.len() implies exists|k: int|
            0 <= k < names.len() && names[k] == #[trigger] rest[i] by {
            assert(rest[i] == rem[i + 1]);
        }
        lemma_claimants_none(rest, names, pm, winner);
        if claims_manifest(first, names, pm) {
            let k = choose|k: int| 0 <= k < names.len() && names[k] == rem[0];
            lemma_claimant_is_winner(first, names, pm, k);
            assert(rem[0] != winner);
            assert(false);
        }
    }
}

/// The executable half of the exactly-one-manifest law: whatever the
/// renderings did, a plan matching a distinct listing writes the root
/// manifest destination at most once — never more than one.
pub proof fn lemma_at_most_one_manifest_write(
    cmds: Seq<WriteCmd>,
    names: Seq<Seq<char>>,
    pm: Seq<char>,
    src: Seq<char>,
    pd: Seq<char>,
)
    requires
        cmds_match_listing(cmds, names, names, true, src, pd, pm),
        manifest_premises(names, pm),
        forall|i: int, j: int| 0 <= i < j < names.len() ==> names[i] != names[j],
    ensures
        manifest_write_count(cmds, pd) <= 1,
{
    lemma_manifest_write_bound(cmds, names, names, pm, src, pd);
    assert forall|i: int| 0 <= i < names.len() implies exists|k: int|
        0 <= k < names.len() && names[k] == #[trigger] names[i] by {
        assert(names[i] == names[i]);
    }
    lemma_claimants_bound(names, names, pm);
}

} // verus!
