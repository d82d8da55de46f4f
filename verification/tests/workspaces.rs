use create_v1_app::service::Service;
use create_v1_app::workspace::{
    get_workspaces, get_templates_path, service_workspace, workspaces_with_services,
};

#[test]
fn base_workspace_list_is_fixed_and_ordered() {
    let ws = get_workspaces("templates", "myapp");
    assert_eq!(ws.len(), 6);
    assert_eq!(ws[0].name, "root");
    assert_eq!(ws[0].source_path, "templates");
    assert_eq!(ws[0].dest_path, "myapp");
    assert!(ws[0].is_root);
    let expected = [
        ("web", "apps/web"),
        ("api", "apps/api"),
        ("app", "apps/app"),
        ("ui", "packages/ui"),
        ("logger", "packages/logger"),
    ];
    for (i, (name, rel)) in expected.iter().enumerate() {
        let w = &ws[i + 1];
        assert_eq!(w.name, *name);
        assert_eq!(w.source_path, format!("templates/{}", rel));
        assert_eq!(w.dest_path, format!("myapp/{}", rel));
        assert!(!w.is_root);
    }
}

#[test]
fn destinations_are_pairwise_distinct() {
    let ws = get_workspaces("templates", "myapp");
    for i in 0..ws.len() {
        for j in 0..ws.len() {
            if i != j {
                assert_ne!(ws[i].dest_path, ws[j].dest_path);
            }
        }
    }
}

#[test]
fn requested_services_are_appended_in_order() {
    let services = vec![Service::Cal, Service::Upstash];
    let ws = workspaces_with_services("templates", "myapp", &services);
    assert_eq!(ws.len(), 8);
    assert_eq!(ws[6].name, "cal");
    assert_eq!(ws[6].source_path, "templates/services/cal");
    assert_eq!(ws[6].dest_path, "myapp/packages/cal");
    assert!(!ws[6].is_root);
    assert_eq!(ws[7].name, "upstash");
    assert_eq!(ws[7].source_path, "templates/services/upstash");
    assert_eq!(ws[7].dest_path, "myapp/packages/upstash");
}

#[test]
fn service_workspace_paths() {
    let w = service_workspace(Service::Sentry, "t", "p");
    assert_eq!(w.name, "sentry");
    assert_eq!(w.source_path, "t/services/sentry");
    assert_eq!(w.dest_path, "p/packages/sentry");
    assert!(!w.is_root);
}

#[test]
fn templates_path_is_under_the_install_dir() {
    assert_eq!(get_templates_path("/opt/tool"), "/opt/tool/templates");
}
