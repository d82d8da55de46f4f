//! The templating engine, consumed through a single render contract. The
//! engine and its context are opaque values of the `tera` crate; what a
//! rendering returns is decided by the engine, so every function that
//! consumes rendered text is verified for every possible text. Which
//! templates are registered, and under which names, is decided by a
//! verified function over the walked entries.

use vstd::prelude::*;

use crate::text::{concat_str, is_prefix_of};
use crate::variant::is_template_name;
use crate::walk::{files_have_prefix, walk_all, WalkedEntry};
use crate::FatalError;

verus! {

#[verifier::external_type_specification]
#[verifier::external_body]
pub struct ExTera(tera::Tera);

#[verifier::external_type_specification]
#[verifier::external_body]
pub struct ExContext(tera::Context);

/// Relies on `tera::Tera::default`: a fresh engine holding no templates.
#[verifier::external_body]
pub(crate) fn engine_default() -> tera::Tera {
    tera::Tera::default()
}

/// Relies on `tera::Tera::add_template_file`: reads the file at `path` and
/// registers it under `name`; a parse failure becomes an error.
#[verifier::external_body]
pub(crate) fn engine_add_template_file(
    t: &mut tera::Tera,
    path: &str,
    name: &str,
) -> Result<(), String> {
    t.add_template_file(std::path::Path::new(path), Some(name)).map_err(|e| e.to_string())
}

/// Relies on `tera::Tera::render`: evaluates the template registered under
/// `name` against `ctx` and returns the rendered text; an unknown name or
/// an evaluation failure becomes an error.
///
/// Caveat: tera 1.20.1 converts float literals with
/// `Number::from_f64(..).unwrap()` while evaluating, so a template whose
/// text holds an over-range decimal literal (or makes a float operation
/// overflow to infinity) aborts the process instead of returning an error.
/// Templates are opaque inputs here, so no precondition can exclude such a
/// file; the library's no-panic guarantee does not extend through this
/// call on such a template tree.
#[verifier::external_body]
pub(crate) fn engine_render(
    t: &tera::Tera,
    name: &str,
    ctx: &tera::Context,
) -> Result<String, String> {
    t.render(name, ctx).map_err(|e| e.to_string())
}

/// Relies on `tera::Context::new`: an empty rendering context.
#[verifier::external_body]
pub(crate) fn context_new() -> tera::Context {
    tera::Context::new()
}

/// Relies on `tera::Context::insert`: binds `key` to the string `value` in
/// the context.
#[verifier::external_body]
pub(crate) fn context_insert(ctx: &mut tera::Context, key: &str, value: &str) {
    ctx.insert(key, value)
}

/// The rendering context of one invocation: the opaque engine-side value,
/// beside a model of the bindings it was built from.
pub struct RenderContext {
    /// The engine-side context handed to every render call.
    pub raw: tera::Context,
    /// The bindings the context was built from, key to value.
    pub bindings: Ghost<Map<Seq<char>, Seq<char>>>,
}

/// Builds the rendering context of one invocation: the project name and
/// the active package manager, bound once and then passed by reference to
/// every render call.
pub fn render_context(project_name: &str, package_manager: &str) -> (r: RenderContext)
    ensures
        r.bindings@ == Map::<Seq<char>, Seq<char>>::empty().insert(
            "project_name"@,
            project_name@,
        ).insert("package_manager"@, package_manager@),
{
    let mut ctx = context_new();
    context_insert(&mut ctx, "project_name", project_name);
    context_insert(&mut ctx, "package_manager", package_manager);
    RenderContext {
        raw: ctx,
        bindings: Ghost(
            Map::<Seq<char>, Seq<char>>::empty().insert("project_name"@, project_name@).insert(
                "package_manager"@,
                package_manager@,
            ),
        ),
    }
}

/// The registrations a walked template tree induces: one `(path, name)`
/// pair per file entry carrying the render marker, keyed by its path
/// relative to the tree's root, in walk order; files without the marker
/// are not registered.
pub open spec fn registrations_spec(entries: Seq<WalkedEntry>, root: Seq<char>) -> Seq<
    (Seq<char>, Seq<char>),
>
    decreases entries.len(),
{
    if entries.len() == 0 {
        Seq::empty()
    } else {
        let e = entries.last();
        let rel = e.path@.subrange(root.len() + 1 as int, e.path@.len() as int);
        registrations_spec(entries.drop_last(), root) + (if e.is_file && is_template_name(rel) {
            seq![(e.path@, rel)]
        } else {
            Seq::empty()
        })
    }
}

/// The template registrations of a walked tree: succeeds exactly when
/// every file of the walk lies under the root, and then returns exactly
/// the `(path, relative name)` pairs of the files carrying the render
/// marker, in walk order.
pub fn template_registrations(entries: &Vec<WalkedEntry>, root: &str) -> (r: Result<
    Vec<(String, String)>,
    FatalError,
>)
    ensures
        r is Ok <==> files_have_prefix(entries@, root@),
        r matches Ok(v) ==> v.deep_view() == registrations_spec(entries@, root@),
        r matches Err(e) ==> e is Filesystem,
{
    let rootlen = root.unicode_len();
    let prefix = concat_str(root, "/");
    proof {
        reveal_strlit("/");
        assert(prefix@ =~= root@ + seq!['/']);
    }
    let n = entries.len();
    let mut v: Vec<(String, String)> = Vec::new();
    proof {
        assert(entries@.subrange(0, 0) =~= Seq::<WalkedEntry>::empty());
        assert(v.deep_view() =~= Seq::<(Seq<char>, Seq<char>)>::empty());
    }
    let mut i: usize = 0;
    while i < n
        invariant
            n == entries@.len(),
            i <= n,
            rootlen == root@.len(),
            prefix@ == root@ + seq!['/'],
            v.deep_view() == registrations_spec(entries@.subrange(0, i as int), root@),
            forall|j: int|
                0 <= j < i ==> ((#[trigger] entries@[j]).is_file ==> is_prefix_of(
                    root@ + seq!['/'],
                    entries@[j].path@,
                )),
        decreases n - i,
    {
        let ghost pre = entries@.subrange(0, i as int);
        let e = &entries[i];
        if e.is_file {
            let p = e.path.as_str();
            let plen = p.unicode_len();
            if !crate::text::starts_with_str(p, prefix.as_str()) {
                proof {
                    assert(!files_have_prefix(entries@, root@));
                }
                return Err(
                    FatalError::Filesystem(
                        "template entry is outside the template tree".to_owned(),
                    ),
                );
            }
            let rel = p.substring_char(rootlen + 1, plen);
            if crate::variant::is_template_file(rel) {
                let ghost old_v = v.deep_view();
                v.push((e.path.as_str().to_owned(), rel.to_owned()));
                proof {
                    assert(v.deep_view() =~= old_v + seq![
                        (
                            entries@[i as int].path@,
                            entries@[i as int].path@.subrange(
                                root@.len() + 1 as int,
                                entries@[i as int].path@.len() as int,
                            ),
                        ),
                    ]);
                }
            }
        }
        proof {
            let pre1 = entries@.subrange(0, i + 1 as int);
            assert(pre1.drop_last() =~= pre);
            assert(pre1.last() == entries@[i as int]);
            let e = entries@[i as int];
            let rel = e.path@.subrange(root@.len() + 1 as int, e.path@.len() as int);
            if !(e.is_file && is_template_name(rel)) {
                assert(v.deep_view() =~= registrations_spec(pre, root@) + Seq::<
                    (Seq<char>, Seq<char>),
                >::empty());
            }
        }
        i += 1;
    }
    proof {
        assert(entries@.subrange(0, n as int) =~= entries@);
    }
    Ok(v)
}

/// Builds the shared template registry: walks the template tree, derives
/// the registrations with `template_registrations`, and registers each
/// pair. A failure to read the tree is a filesystem error; a template that
/// does not parse is a render error whose message says so.
pub fn initialize_tera(templates_root: &str) -> (r: Result<tera::Tera, FatalError>)
    ensures
        r matches Err(e) ==> e is Filesystem || (e is Render && is_prefix_of(
            "Failed to add template file: "@,
            e.text(),
        )),
{
    let entries: Vec<WalkedEntry> = match walk_all(templates_root) {
        Ok(v) => v,
        Err(m) => return Err(FatalError::Filesystem(m)),
    };
    let pairs = match template_registrations(&entries, templates_root) {
        Ok(v) => v,
        Err(e) => return Err(e),
    };
    let mut t = engine_default();
    let n = pairs.len();
    let mut i: usize = 0;
    while i < n
        invariant
            n == pairs@.len(),
        decreases n - i,
    {
        let pair = &pairs[i];
        if let Err(m) = engine_add_template_file(&mut t, pair.0.as_str(), pair.1.as_str()) {
            let framed = concat_str("Failed to add template file: ", m.as_str());
            proof {
                assert(framed@.subrange(0, "Failed to add template file: "@.len() as int)
                    =~= "Failed to add template file: "@);
            }
            return Err(FatalError::Render(framed));
        }
        i += 1;
    }
    Ok(t)
}

} // verus!
