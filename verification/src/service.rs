//! The optional service bundles a project can request, and the mapping
//! between service identifiers and their names in the template tree.

use vstd::prelude::*;

use crate::cleanup::{CleanupManager, CleanupTask};
use crate::engine::RenderContext;
use crate::materialize::{cmds_match_listing, process_workspace, WriteCmd};
use crate::text::{concat_str, joined};
use crate::workspace::{service_workspace, service_workspace_ok, Workspace};
use crate::FatalError;

verus! {

/// An optional service bundle that can be added to a project.
#[derive(Clone, Copy, PartialEq, Eq, Structural, Debug)]
pub enum Service {
    /// Calendar service for scheduling.
    Cal,
    /// URL shortener and link management.
    Dub,
    /// Open-source control panel.
    Openpanel,
    /// Email API that enables email sending.
    Resend,
    /// Workflow automation platform.
    Trigger,
    /// Application monitoring and error tracking.
    Sentry,
    /// Serverless database for Redis and Kafka.
    Upstash,
}

/// The canonical (lower-case) name of a service.
pub open spec fn service_name(s: Service) -> Seq<char> {
    match s {
        Service::Cal => seq!['c', 'a', 'l'],
        Service::Dub => seq!['d', 'u', 'b'],
        Service::Openpanel => seq!['o', 'p', 'e', 'n', 'p', 'a', 'n', 'e', 'l'],
        Service::Resend => seq!['r', 'e', 's', 'e', 'n', 'd'],
        Service::Trigger => seq!['t', 'r', 'i', 'g', 'g', 'e', 'r'],
        Service::Sentry => seq!['s', 'e', 'n', 't', 'r', 'y'],
        Service::Upstash => seq!['u', 'p', 's', 't', 'a', 's', 'h'],
    }
}

/// ASCII lower-casing of a single character; every other character is left
/// as it is.
pub open spec fn lower_char(c: char) -> char {
    if c == 'A' {
        'a'
    } else if c == 'B' {
        'b'
    } else if c == 'C' {
        'c'
    } else if c == 'D' {
        'd'
    } else if c == 'E' {
        'e'
    } else if c == 'F' {
        'f'
    } else if c == 'G' {
        'g'
    } else if c == 'H' {
        'h'
    } else if c == 'I' {
        'i'
    } else if c == 'J' {
        'j'
    } else if c == 'K' {
        'k'
    } else if c == 'L' {
        'l'
    } else if c == 'M' {
        'm'
    } else if c == 'N' {
        'n'
    } else if c == 'O' {
        'o'
    } else if c == 'P' {
        'p'
    } else if c == 'Q' {
        'q'
    } else if c == 'R' {
        'r'
    } else if c == 'S' {
        's'
    } else if c == 'T' {
        't'
    } else if c == 'U' {
        'u'
    } else if c == 'V' {
        'v'
    } else if c == 'W' {
        'w'
    } else if c == 'X' {
        'x'
    } else if c == 'Y' {
        'y'
    } else if c == 'Z' {
        'z'
    } else {
        c
    }
}

/// ASCII lower-casing of a whole string.
pub open spec fn lowered(s: Seq<char>) -> Seq<char> {
    s.map_values(|c: char| lower_char(c))
}

/// The service named by `s`, compared case-insensitively, if any.
pub open spec fn service_of(s: Seq<char>) -> Option<Service> {
    if lowered(s) == service_name(Service::Cal) {
        Some(Service::Cal)
    } else if lowered(s) == service_name(Service::Dub) {
        Some(Service::Dub)
    } else if lowered(s) == service_name(Service::Openpanel) {
        Some(Service::Openpanel)
    } else if lowered(s) == service_name(Service::Resend) {
        Some(Service::Resend)
    } else if lowered(s) == service_name(Service::Trigger) {
        Some(Service::Trigger)
    } else if lowered(s) == service_name(Service::Sentry) {
        Some(Service::Sentry)
    } else if lowered(s) == service_name(Service::Upstash) {
        Some(Service::Upstash)
    } else {
        None
    }
}

/// ASCII lower-casing of a single character.
pub fn lower_char_exec(c: char) -> (r: char)
    ensures
        r == lower_char(c),
{
    match c {
        'A' => 'a',
        'B' => 'b',
        'C' => 'c',
        'D' => 'd',
        'E' => 'e',
        'F' => 'f',
        'G' => 'g',
        'H' => 'h',
        'I' => 'i',
        'J' => 'j',
        'K' => 'k',
        'L' => 'l',
        'M' => 'm',
        'N' => 'n',
        'O' => 'o',
        'P' => 'p',
        'Q' => 'q',
        'R' => 'r',
        'S' => 's',
        'T' => 't',
        'U' => 'u',
        'V' => 'v',
        'W' => 'w',
        'X' => 'x',
        'Y' => 'y',
        'Z' => 'z',
        _ => c,
    }
}

/// Whether `s`, lower-cased, equals the (already lower-case) `t`.
fn lowered_eq(s: &str, t: &str) -> (r: bool)
    ensures
        r == (lowered(s@) == t@),
{
    let slen = s.unicode_len();
    let tlen = t.unicode_len();
    if slen != tlen {
        assert(lowered(s@).len() == s@.len());
        return false;
    }
    let mut i: usize = 0;
    while i < slen
        invariant
            slen == s@.len(),
            tlen == t@.len(),
            slen == tlen,
            i <= slen,
            forall|j: int| 0 <= j < i ==> lower_char(s@[j]) == t@[j],
        decreases slen - i,
    {
        if lower_char_exec(s.get_char(i)) != t.get_char(i) {
            assert(lowered(s@)[i as int] != t@[i as int]);
            return false;
        }
        i += 1;
    }
    proof {
        assert(lowered(s@) =~= t@);
    }
    true
}

impl Service {
    /// Parses a service identifier, matching case-insensitively; an unknown
    /// identifier is a configuration error named after the input.
    pub fn from_str(s: &str) -> (r: Result<Service, String>)
        ensures
            match r {
                Ok(svc) => service_of(s@) == Some(svc),
                Err(m) => service_of(s@) is None && m@ == "Unknown service: "@ + s@,
            },
    {
        proof {
            reveal_strlit("cal");
            reveal_strlit("dub");
            reveal_strlit("openpanel");
            reveal_strlit("resend");
            reveal_strlit("trigger");
            reveal_strlit("sentry");
            reveal_strlit("upstash");
            assert("cal"@ =~= service_name(Service::Cal));
            assert("dub"@ =~= service_name(Service::Dub));
            assert("openpanel"@ =~= service_name(Service::Openpanel));
            assert("resend"@ =~= service_name(Service::Resend));
            assert("trigger"@ =~= service_name(Service::Trigger));
            assert("sentry"@ =~= service_name(Service::Sentry));
            assert("upstash"@ =~= service_name(Service::Upstash));
        }
        if lowered_eq(s, "cal") {
            Ok(Service::Cal)
        } else if lowered_eq(s, "dub") {
            Ok(Service::Dub)
        } else if lowered_eq(s, "openpanel") {
            Ok(Service::Openpanel)
        } else if lowered_eq(s, "resend") {
            Ok(Service::Resend)
        } else if lowered_eq(s, "trigger") {
            Ok(Service::Trigger)
        } else if lowered_eq(s, "sentry") {
            Ok(Service::Sentry)
        } else if lowered_eq(s, "upstash") {
            Ok(Service::Upstash)
        } else {
            Err(concat_str("Unknown service: ", s))
        }
    }

    /// The canonical name of the service.
    pub fn to_string(&self) -> (r: String)
        ensures
            r@ == service_name(*self),
    {
        proof {
            reveal_strlit("cal");
            reveal_strlit("dub");
            reveal_strlit("openpanel");
            reveal_strlit("resend");
            reveal_strlit("trigger");
            reveal_strlit("sentry");
            reveal_strlit("upstash");
            assert("cal"@ =~= service_name(Service::Cal));
            assert("dub"@ =~= service_name(Service::Dub));
            assert("openpanel"@ =~= service_name(Service::Openpanel));
            assert("resend"@ =~= service_name(Service::Resend));
            assert("trigger"@ =~= service_name(Service::Trigger));
            assert("sentry"@ =~= service_name(Service::Sentry));
            assert("upstash"@ =~= service_name(Service::Upstash));
        }
        match self {
            Service::Cal => "cal".to_owned(),
            Service::Dub => "dub".to_owned(),
            Service::Openpanel => "openpanel".to_owned(),
            Service::Resend => "resend".to_owned(),
            Service::Trigger => "trigger".to_owned(),
            Service::Sentry => "sentry".to_owned(),
            Service::Upstash => "upstash".to_owned(),
        }
    }
}

/// Distinct services have distinct canonical names: names of equal length
/// differ already in their first character.
pub proof fn lemma_service_name_injective(a: Service, b: Service)
    requires
        a != b,
    ensures
        service_name(a) != service_name(b),
{
    if service_name(a) == service_name(b) {
        assert(service_name(a).len() == service_name(b).len());
        assert(service_name(a)[0] == service_name(b)[0]);
    }
}

/// The positional arguments of the `add services` subcommand: the services
/// to add.
pub struct ServicesArgs {
    /// The services to add, in the order requested.
    pub services: Vec<Service>,
}

/// `t` is the compensating action that undoes the addition of `svc` to the
/// project at `pd`.
pub open spec fn remove_service_task_ok(t: CleanupTask, pd: Seq<char>, svc: Service) -> bool {
    match t {
        CleanupTask::RemoveService { project_dir, service_name: n } => project_dir@ == pd && n@
            == service_name(svc),
        _ => false,
    }
}

/// `plan` is the write plan of `svc`'s workspace: its template subtree
/// under `services/` in the template root, its destination under
/// `packages/` in the project, materialized from some listing of that
/// subtree.
pub open spec fn service_plan_ok(
    plan: Seq<WriteCmd>,
    svc: Service,
    tr: Seq<char>,
    pd: Seq<char>,
    pm: Seq<char>,
) -> bool {
    exists|names: Seq<Seq<char>>|
        #[trigger] cmds_match_listing(
            plan,
            names,
            names,
            false,
            joined(joined(tr, "services"@), service_name(svc)),
            joined(joined(pd, "packages"@), service_name(svc)),
            pm,
        )
}

/// Adds the requested services to an existing project: appends one
/// workspace per service to the list, records each service's compensating
/// action — every action is on the log before any write is planned, so a
/// failure partway leaves a complete rollback — and then materializes the
/// new workspaces, planning the writes to perform.
pub fn add_services(
    workspaces: &mut Vec<Workspace>,
    services: &Vec<Service>,
    manager: &mut CleanupManager,
    engine: &tera::Tera,
    rc: &RenderContext,
    package_manager: &str,
    templates_root: &str,
    project_dir: &str,
) -> (r: Result<Vec<Vec<WriteCmd>>, FatalError>)
    ensures
        final(manager).recorded().len() == old(manager).recorded().len() + services@.len(),
        forall|k: int|
            0 <= k < old(manager).recorded().len() ==> final(manager).recorded()[k] == old(
                manager,
            ).recorded()[k],
        forall|k: int|
            0 <= k < services@.len() ==> remove_service_task_ok(
                #[trigger] final(manager).recorded()[old(manager).recorded().len() + k],
                project_dir@,
                services@[k],
            ),
        final(manager).cleanup_needed() == old(manager).cleanup_needed(),
        final(workspaces)@.len() == old(workspaces)@.len() + services@.len(),
        forall|k: int|
            0 <= k < old(workspaces)@.len() ==> final(workspaces)@[k] == old(workspaces)@[k],
        forall|k: int|
            0 <= k < services@.len() ==> service_workspace_ok(
                #[trigger] final(workspaces)@[old(workspaces)@.len() + k],
                services@[k],
                templates_root@,
                project_dir@,
            ),
        r matches Ok(plans) ==> plans@.len() == services@.len() && forall|k: int|
            0 <= k < services@.len() ==> service_plan_ok(
                (#[trigger] plans@[k])@,
                services@[k],
                templates_root@,
                project_dir@,
                package_manager@,
            ),
        r matches Err(e) ==> e is Filesystem || e is Render,
{
    let ghost base_ws = old(workspaces)@.len() as int;
    let ghost base_tasks = old(manager).recorded().len() as int;
    let mut new_list: Vec<Workspace> = Vec::new();
    let mut i: usize = 0;
    while i < services.len()
        invariant
            i <= services@.len(),
            new_list@.len() == i,
            workspaces@.len() == base_ws + i,
            base_ws == old(workspaces)@.len(),
            base_tasks == old(manager).recorded().len(),
            forall|k: int| 0 <= k < base_ws ==> workspaces@[k] == old(workspaces)@[k],
            forall|k: int|
                0 <= k < i ==> service_workspace_ok(
                    #[trigger] new_list@[k],
                    services@[k],
                    templates_root@,
                    project_dir@,
                ),
            forall|k: int|
                0 <= k < i ==> service_workspace_ok(
                    #[trigger] workspaces@[base_ws + k],
                    services@[k],
                    templates_root@,
                    project_dir@,
                ),
            manager.recorded().len() == base_tasks + i,
            forall|k: int| 0 <= k < base_tasks ==> manager.recorded()[k] == old(manager).recorded()[k],
            forall|k: int|
                0 <= k < i ==> remove_service_task_ok(
                    #[trigger] manager.recorded()[base_tasks + k],
                    project_dir@,
                    services@[k],
                ),
            manager.cleanup_needed() == old(manager).cleanup_needed(),
        decreases services@.len() - i,
    {
        let svc = services[i];
        new_list.push(service_workspace(svc, templates_root, project_dir));
        workspaces.push(service_workspace(svc, templates_root, project_dir));
        let name = svc.to_string();
        manager.add_task(
            CleanupTask::RemoveService {
                project_dir: project_dir.to_owned(),
                service_name: name,
            },
        );
        i += 1;
    }
    let mut plans: Vec<Vec<WriteCmd>> = Vec::new();
    let mut j: usize = 0;
    while j < new_list.len()
        invariant
            new_list@.len() == services@.len(),
            j <= services@.len(),
            base_ws == old(workspaces)@.len(),
            base_tasks == old(manager).recorded().len(),
            workspaces@.len() == base_ws + services@.len(),
            forall|k: int| 0 <= k < base_ws ==> workspaces@[k] == old(workspaces)@[k],
            forall|k: int|
                0 <= k < services@.len() ==> service_workspace_ok(
                    #[trigger] new_list@[k],
                    services@[k],
                    templates_root@,
                    project_dir@,
                ),
            forall|k: int|
                0 <= k < services@.len() ==> service_workspace_ok(
                    #[trigger] workspaces@[base_ws + k],
                    services@[k],
                    templates_root@,
                    project_dir@,
                ),
            manager.recorded().len() == base_tasks + services@.len(),
            forall|k: int| 0 <= k < base_tasks ==> manager.recorded()[k] == old(manager).recorded()[k],
            forall|k: int|
                0 <= k < services@.len() ==> remove_service_task_ok(
                    #[trigger] manager.recorded()[base_tasks + k],
                    project_dir@,
                    services@[k],
                ),
            manager.cleanup_needed() == old(manager).cleanup_needed(),
            plans@.len() == j,
            forall|k: int|
                0 <= k < j ==> service_plan_ok(
                    (#[trigger] plans@[k])@,
                    services@[k],
                    templates_root@,
                    project_dir@,
                    package_manager@,
                ),
        decreases services@.len() - j,
    {
        let w = &new_list[j];
        let ws_cmds = match process_workspace(w, engine, rc, package_manager) {
            Ok(v) => v,
            Err(e) => return Err(e),
        };
        proof {
            assert(service_workspace_ok(
                new_list@[j as int],
                services@[j as int],
                templates_root@,
                project_dir@,
            ));
            let names = choose|names: Seq<Seq<char>>|
                #[trigger] cmds_match_listing(
                    ws_cmds@,
                    names,
                    names,
                    new_list@[j as int].is_root,
                    new_list@[j as int].source_path@,
                    new_list@[j as int].dest_path@,
                    package_manager@,
                );
            assert(cmds_match_listing(
                ws_cmds@,
                names,
                names,
                false,
                joined(joined(templates_root@, "services"@), service_name(services@[j as int])),
                joined(joined(project_dir@, "packages"@), service_name(services@[j as int])),
                package_manager@,
            ));
            assert(service_plan_ok(
                ws_cmds@,
                services@[j as int],
                templates_root@,
                project_dir@,
                package_manager@,
            ));
        }
        plans.push(ws_cmds);
        j += 1;
    }
    Ok(plans)
}

/// Rollback completeness at the log level: `add_services` records every
/// service's compensating action before any write is planned, so whatever
/// step fails afterwards, the executed cleanup plan (the recorded tasks,
/// last first) holds the action that undoes each service.
pub proof fn lemma_rollback_covers_services(
    tasks: Seq<CleanupTask>,
    base: int,
    services: Seq<Service>,
    project_dir: Seq<char>,
    k: int,
)
    requires
        0 <= base,
        tasks.len() == base + services.len(),
        0 <= k < services.len(),
        remove_service_task_ok(tasks[base + k], project_dir, services[k]),
    ensures
        exists|j: int|
            0 <= j < tasks.reverse().len() && remove_service_task_ok(
                #[trigger] tasks.reverse()[j],
                project_dir,
                services[k],
            ),
{
    let j = tasks.len() - 1 - (base + k);
    assert(tasks.reverse()[j] == tasks[base + k]);
}

} // verus!
