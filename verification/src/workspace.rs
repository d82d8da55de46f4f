//! Workspace resolution: the ordered list of template subtrees to
//! materialize — the root workspace first, the fixed application and shared
//! packages next, and one workspace per requested service after them.

use vstd::prelude::*;

use crate::service::{lemma_service_name_injective, service_name, Service};
use crate::text::{joined, lemma_joined_assoc, lemma_joined_cancel, path_join};

verus! {

/// One unit of template materialization: a source subtree and a destination
/// subtree. The root workspace materializes only its immediate children.
#[derive(Clone)]
pub struct Workspace {
    /// Display name of the workspace.
    pub name: String,
    /// Root of the template subtree the workspace is materialized from.
    pub source_path: String,
    /// Root of the destination subtree the workspace writes to.
    pub dest_path: String,
    /// Whether this is the root workspace, whose traversal is not recursive.
    pub is_root: bool,
}

/// Field-wise description of one workspace.
pub open spec fn workspace_is(
    w: Workspace,
    name: Seq<char>,
    source: Seq<char>,
    dest: Seq<char>,
    is_root: bool,
) -> bool {
    w.name@ == name && w.source_path@ == source && w.dest_path@ == dest && w.is_root == is_root
}

/// The fixed base list: the root workspace, three application packages and
/// two shared library packages, with disjoint destination subtrees.
pub open spec fn base_workspaces_ok(r: Seq<Workspace>, td: Seq<char>, pd: Seq<char>) -> bool {
    &&& r.len() == 6
    &&& workspace_is(r[0], "root"@, td, pd, true)
    &&& workspace_is(r[1], "web"@, joined(td, "apps/web"@), joined(pd, "apps/web"@), false)
    &&& workspace_is(r[2], "api"@, joined(td, "apps/api"@), joined(pd, "apps/api"@), false)
    &&& workspace_is(r[3], "app"@, joined(td, "apps/app"@), joined(pd, "apps/app"@), false)
    &&& workspace_is(r[4], "ui"@, joined(td, "packages/ui"@), joined(pd, "packages/ui"@), false)
    &&& workspace_is(
        r[5],
        "logger"@,
        joined(td, "packages/logger"@),
        joined(pd, "packages/logger"@),
        false,
    )
}

/// The ordered base list of workspaces under a template root and a project
/// root: the root workspace first, then the conventional application and
/// shared packages.
pub fn get_workspaces(template_dir: &str, project_dir: &str) -> (r: Vec<Workspace>)
    ensures
        base_workspaces_ok(r@, template_dir@, project_dir@),
{
    let mut r: Vec<Workspace> = Vec::new();
    r.push(
        Workspace {
            name: "root".to_owned(),
            source_path: template_dir.to_owned(),
            dest_path: project_dir.to_owned(),
            is_root: true,
        },
    );
    r.push(
        Workspace {
            name: "web".to_owned(),
            source_path: path_join(template_dir, "apps/web"),
            dest_path: path_join(project_dir, "apps/web"),
            is_root: false,
        },
    );
    r.push(
        Workspace {
            name: "api".to_owned(),
            source_path: path_join(template_dir, "apps/api"),
            dest_path: path_join(project_dir, "apps/api"),
            is_root: false,
        },
    );
    r.push(
        Workspace {
            name: "app".to_owned(),
            source_path: path_join(template_dir, "apps/app"),
            dest_path: path_join(project_dir, "apps/app"),
            is_root: false,
        },
    );
    r.push(
        Workspace {
            name: "ui".to_owned(),
            source_path: path_join(template_dir, "packages/ui"),
            dest_path: path_join(project_dir, "packages/ui"),
            is_root: false,
        },
    );
    r.push(
        Workspace {
            name: "logger".to_owned(),
            source_path: path_join(template_dir, "packages/logger"),
            dest_path: path_join(project_dir, "packages/logger"),
            is_root: false,
        },
    );
    r
}

/// Field-wise description of the workspace of one requested service.
pub open spec fn service_workspace_ok(
    w: Workspace,
    svc: Service,
    td: Seq<char>,
    pd: Seq<char>,
) -> bool {
    workspace_is(
        w,
        service_name(svc),
        joined(joined(td, "services"@), service_name(svc)),
        joined(joined(pd, "packages"@), service_name(svc)),
        false,
    )
}

/// The workspace of one requested service: its template subtree lives under
/// `services/` in the template root, its destination under `packages/` in
/// the project root.
pub fn service_workspace(service: Service, template_dir: &str, project_dir: &str) -> (w: Workspace)
    ensures
        service_workspace_ok(w, service, template_dir@, project_dir@),
{
    let name = service.to_string();
    let services_dir = path_join(template_dir, "services");
    let packages_dir = path_join(project_dir, "packages");
    Workspace {
        name: service.to_string(),
        source_path: path_join(services_dir.as_str(), name.as_str()),
        dest_path: path_join(packages_dir.as_str(), name.as_str()),
        is_root: false,
    }
}

/// The full ordered workspace list of a new project: the base list followed
/// by one workspace per requested service, in request order.
pub fn workspaces_with_services(
    template_dir: &str,
    project_dir: &str,
    services: &Vec<Service>,
) -> (r: Vec<Workspace>)
    ensures
        r@.len() == 6 + services@.len(),
        base_workspaces_ok(r@.subrange(0, 6), template_dir@, project_dir@),
        forall|i: int|
            0 <= i < services@.len() ==> service_workspace_ok(
                #[trigger] r@[6 + i],
                services@[i],
                template_dir@,
                project_dir@,
            ),
{
    let mut r = get_workspaces(template_dir, project_dir);
    let mut i: usize = 0;
    while i < services.len()
        invariant
            r@.len() == 6 + i,
            i <= services@.len(),
            base_workspaces_ok(r@.subrange(0, 6), template_dir@, project_dir@),
            forall|j: int|
                0 <= j < i ==> service_workspace_ok(
                    #[trigger] r@[6 + j],
                    services@[j],
                    template_dir@,
                    project_dir@,
                ),
        decreases services@.len() - i,
    {
        r.push(service_workspace(services[i], template_dir, project_dir));
        proof {
            assert(r@.subrange(0, 6) =~= r@.drop_last().subrange(0, 6));
        }
        i += 1;
    }
    r
}

/// The destination of entry `j` of the resolved list, relative to the
/// project root (meaningful for `j >= 1`; the root workspace's destination
/// is the project root itself).
pub open spec fn resolved_rel(j: int, services: Seq<Service>) -> Seq<char> {
    if j == 1 {
        "apps/web"@
    } else if j == 2 {
        "apps/api"@
    } else if j == 3 {
        "apps/app"@
    } else if j == 4 {
        "packages/ui"@
    } else if j == 5 {
        "packages/logger"@
    } else {
        "packages"@ + seq!['/'] + service_name(services[j - 6])
    }
}

/// The invariant of the resolved workspace list: destination subtrees are
/// pairwise disjoint. The root workspace writes to the project root itself;
/// every other entry writes to a distinct subdirectory of it.
pub proof fn lemma_resolved_dests_distinct(
    r: Seq<Workspace>,
    td: Seq<char>,
    pd: Seq<char>,
    services: Seq<Service>,
)
    requires
        r.len() == 6 + services.len(),
        base_workspaces_ok(r.subrange(0, 6), td, pd),
        forall|k: int|
            0 <= k < services.len() ==> service_workspace_ok(
                #[trigger] r[6 + k],
                services[k],
                td,
                pd,
            ),
        forall|i: int, j: int| 0 <= i < j < services.len() ==> services[i] != services[j],
    ensures
        forall|i: int, j: int| 0 <= i < j < r.len() ==> r[i].dest_path@ != r[j].dest_path@,
{
    reveal_strlit("apps/web");
    reveal_strlit("apps/api");
    reveal_strlit("apps/app");
    reveal_strlit("packages/ui");
    reveal_strlit("packages/logger");
    reveal_strlit("packages");
    assert forall|j: int| 1 <= j < r.len() implies r[j].dest_path@ == joined(
        pd,
        resolved_rel(j, services),
    ) by {
        if j < 6 {
            assert(r.subrange(0, 6)[j] == r[j]);
        } else {
            let k = j - 6;
            assert(service_workspace_ok(r[6 + k], services[k], td, pd));
            lemma_joined_assoc(pd, "packages"@, service_name(services[k]));
        }
    }
    assert forall|i: int, j: int| 1 <= i < j < r.len() implies resolved_rel(i, services)
        != resolved_rel(j, services) by {
        let a = resolved_rel(i, services);
        let b = resolved_rel(j, services);
        if j < 6 {
            // two of the five fixed packages: names of equal length differ
            // in a character, the others in length
            if a.len() == b.len() && a == b {
                assert(a[5] == b[5] && a[7] == b[7] && a[9] == b[9]);
                assert(false);
            }
        } else if i < 6 {
            let n = service_name(services[j - 6]);
            assert(b.len() == 9 + n.len());
            assert(b[8] == '/');
            if i <= 3 {
                // an application package against a service package
                assert(a[0] == 'a' && b[0] == 'p');
            } else if i == 4 {
                // `packages/ui` is shorter than any service destination
                assert(a.len() == 11 && n.len() >= 3);
            } else {
                // `packages/logger` collides in length only with services
                // whose names start differently
                if b.len() == 15 {
                    assert(b[9] == n[0]);
                    assert(n.len() == 6);
                    assert(n[0] == 'r' || n[0] == 's');
                    assert(a[9] == 'l');
                    assert(a != b);
                }
            }
        } else {
            // two services: their names, and so their destinations, differ
            if a == b {
                lemma_joined_cancel("packages"@, service_name(services[i - 6]), service_name(
                    services[j - 6],
                ));
                lemma_service_name_injective(services[i - 6], services[j - 6]);
            }
        }
    }
    assert forall|i: int, j: int| 0 <= i < j < r.len() implies r[i].dest_path@
        != r[j].dest_path@ by {
        if i == 0 {
            assert(r.subrange(0, 6)[0] == r[0]);
            assert(r[0].dest_path@ == pd);
            assert(r[j].dest_path@ == joined(pd, resolved_rel(j, services)));
            assert(r[j].dest_path@.len() > pd.len());
        } else {
            assert(r[i].dest_path@ == joined(pd, resolved_rel(i, services)));
            assert(r[j].dest_path@ == joined(pd, resolved_rel(j, services)));
            if r[i].dest_path@ == r[j].dest_path@ {
                lemma_joined_cancel(pd, resolved_rel(i, services), resolved_rel(j, services));
            }
        }
    }
}

/// The template tree shipped with the generator: the `templates` directory
/// under the given installation root.
pub fn get_templates_path(install_dir: &str) -> (r: String)
    ensures
        r@ == joined(install_dir@, "templates"@),
{
    path_join(install_dir, "templates")
}

} // verus!
