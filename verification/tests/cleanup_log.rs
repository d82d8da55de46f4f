use create_v1_app::cleanup::{set_cleanup_needed, CleanupManager, CleanupTask};
use create_v1_app::scrub::{
    is_script_file, strip_service_references, update_root_package_json, workspace_entries_without,
};

#[test]
fn plan_runs_tasks_in_reverse_recording_order() {
    let mut m = CleanupManager::new();
    m.add_task(CleanupTask::RemoveDirectory("a".to_string()));
    m.add_task(CleanupTask::RemoveService {
        project_dir: "p".to_string(),
        service_name: "cal".to_string(),
    });
    m.add_task(CleanupTask::RemoveDirectory("a/b".to_string()));
    let plan = m.cleanup_plan();
    assert_eq!(plan.len(), 3);
    match &plan[0] {
        CleanupTask::RemoveDirectory(p) => assert_eq!(p, "a/b"),
        _ => panic!("expected the last-recorded task first"),
    }
    match &plan[1] {
        CleanupTask::RemoveService { project_dir, service_name } => {
            assert_eq!(project_dir, "p");
            assert_eq!(service_name, "cal");
        },
        _ => panic!("expected the service removal second"),
    }
    match &plan[2] {
        CleanupTask::RemoveDirectory(p) => assert_eq!(p, "a"),
        _ => panic!("expected the first-recorded task last"),
    }
}

#[test]
fn marking_cleanup_keeps_the_log() {
    let mut m = CleanupManager::new();
    m.add_task(CleanupTask::RemoveDirectory("x".to_string()));
    set_cleanup_needed(&mut m);
    let plan = m.cleanup_plan();
    assert_eq!(plan.len(), 1);
}

#[test]
fn workspace_entry_of_removed_service_disappears() {
    let entries = vec![
        "apps/*".to_string(),
        "packages/cal".to_string(),
        "packages/ui".to_string(),
        "packages/cal".to_string(),
    ];
    let left = workspace_entries_without(entries, "cal");
    assert_eq!(left, vec!["apps/*".to_string(), "packages/ui".to_string()]);
}

#[test]
fn import_lines_of_removed_service_are_stripped() {
    let content = "import { a } from \"@v1/cal\";\nconst x = 1;\nimport { b } from \"@v1/ui\";\n";
    let out = strip_service_references(content, "cal").unwrap();
    assert!(!out.contains("@v1/cal"));
    assert!(out.contains("const x = 1;"));
    assert!(out.contains("@v1/ui"));
}

#[test]
fn manifest_workspace_array_is_rewritten() {
    let manifest = "{\"name\":\"p\",\"workspaces\":[\"apps/*\",\"packages/cal\"]}";
    let out = update_root_package_json(manifest, "cal").unwrap();
    let text = out.expect("a manifest with a workspaces array is rewritten");
    let value: serde_json::Value = serde_json::from_str(&text).unwrap();
    let ws = value["workspaces"].as_array().unwrap();
    assert_eq!(ws.len(), 1);
    assert_eq!(ws[0], "apps/*");
    assert_eq!(value["name"], "p");
}

#[test]
fn manifest_without_workspaces_is_left_alone() {
    let out = update_root_package_json("{\"name\":\"p\"}", "cal").unwrap();
    assert!(out.is_none());
}

#[test]
fn only_script_files_are_scanned() {
    assert!(is_script_file("a.ts"));
    assert!(is_script_file("a.tsx"));
    assert!(is_script_file("dir/a.js"));
    assert!(is_script_file("a.jsx"));
    assert!(!is_script_file("a.rs"));
    assert!(!is_script_file("a.json"));
}
