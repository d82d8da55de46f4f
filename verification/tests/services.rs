use create_v1_app::cleanup::{CleanupManager, CleanupTask};
use create_v1_app::engine::{initialize_tera, render_context};
use create_v1_app::service::{add_services, Service, ServicesArgs};
use create_v1_app::workspace::get_workspaces;

#[test]
fn service_names_round_trip() {
    let all = [
        (Service::Cal, "cal"),
        (Service::Dub, "dub"),
        (Service::Openpanel, "openpanel"),
        (Service::Resend, "resend"),
        (Service::Trigger, "trigger"),
        (Service::Sentry, "sentry"),
        (Service::Upstash, "upstash"),
    ];
    for (svc, name) in all {
        assert_eq!(svc.to_string(), name);
        assert_eq!(Service::from_str(name).unwrap(), svc);
    }
}

#[test]
fn services_args_keep_the_requested_order() {
    let args = ServicesArgs { services: vec![Service::Upstash, Service::Cal] };
    assert_eq!(args.services.len(), 2);
    assert_eq!(args.services[0], Service::Upstash);
    assert_eq!(args.services[1], Service::Cal);
}

#[test]
fn service_parsing_is_case_insensitive() {
    assert_eq!(Service::from_str("CAL").unwrap(), Service::Cal);
    assert_eq!(Service::from_str("Sentry").unwrap(), Service::Sentry);
}

#[test]
fn unknown_service_is_an_error_naming_the_input() {
    let e = Service::from_str("nats").unwrap_err();
    assert_eq!(e, "Unknown service: nats");
}

#[test]
fn adding_services_records_their_rollback_before_any_write() {
    // the engine walks the current directory, which holds no template
    // files, so materializing the (nonexistent) service subtrees fails —
    // and the compensating actions must already be on the log
    let engine = initialize_tera(".").unwrap();
    let rc = render_context("p", "npm");
    let mut manager = CleanupManager::new();
    let mut workspaces = get_workspaces("no_templates_here", "proj");
    let services = vec![Service::Cal, Service::Dub];
    let r = add_services(
        &mut workspaces,
        &services,
        &mut manager,
        &engine,
        &rc,
        "npm",
        "no_templates_here",
        "proj",
    );
    assert!(r.is_err());
    assert_eq!(workspaces.len(), 8);
    assert_eq!(workspaces[6].name, "cal");
    assert_eq!(workspaces[7].name, "dub");
    let plan = manager.cleanup_plan();
    assert_eq!(plan.len(), 2);
    // reverse order: the service recorded last is undone first
    match &plan[0] {
        CleanupTask::RemoveService { project_dir, service_name } => {
            assert_eq!(project_dir, "proj");
            assert_eq!(service_name, "dub");
        },
        _ => panic!("expected a service removal"),
    }
    match &plan[1] {
        CleanupTask::RemoveService { project_dir, service_name } => {
            assert_eq!(project_dir, "proj");
            assert_eq!(service_name, "cal");
        },
        _ => panic!("expected a service removal"),
    }
}

#[test]
fn adding_no_services_plans_nothing() {
    let engine = initialize_tera(".").unwrap();
    let rc = render_context("p", "npm");
    let mut manager = CleanupManager::new();
    let mut workspaces = Vec::new();
    let r = add_services(
        &mut workspaces,
        &Vec::new(),
        &mut manager,
        &engine,
        &rc,
        "npm",
        "t",
        "p",
    );
    assert_eq!(r.unwrap().len(), 0);
    assert!(workspaces.is_empty());
    assert!(manager.cleanup_plan().is_empty());
}
