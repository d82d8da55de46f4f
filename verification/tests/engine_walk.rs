use create_v1_app::engine::{initialize_tera, render_context};
use create_v1_app::logger::{initialize_logger, log_trace, Level};
use create_v1_app::materialize::{process_template, process_workspace, WriteCmd};
use create_v1_app::workspace::Workspace;
use create_v1_app::FatalError;

#[test]
fn an_unreadable_template_tree_is_a_filesystem_error() {
    assert!(initialize_tera("surely_no_such_directory_here").is_err());
}

#[test]
fn a_tree_without_templates_initializes_empty() {
    // the test runs from the crate root; its sources hold no template files
    assert!(initialize_tera("src").is_ok());
}

#[test]
fn a_workspace_of_static_files_is_planned_as_copies() {
    let engine = initialize_tera("src").unwrap();
    let rc = render_context("demo", "npm");
    let ws = Workspace {
        name: "demo".to_string(),
        source_path: "src".to_string(),
        dest_path: "out".to_string(),
        is_root: false,
    };
    let cmds = process_workspace(&ws, &engine, &rc, "npm").unwrap();
    assert!(!cmds.is_empty());
    for cmd in &cmds {
        match cmd {
            WriteCmd::Copied { source, dest } => {
                assert!(source.starts_with("src/"));
                assert!(dest.starts_with("out/"));
                assert_eq!(&source["src/".len()..], &dest["out/".len()..]);
            },
            WriteCmd::Rendered { .. } => panic!("no templates live under src"),
        }
    }
}

#[test]
fn a_missing_workspace_source_is_fatal() {
    let engine = initialize_tera("src").unwrap();
    let rc = render_context("demo", "npm");
    let ws = Workspace {
        name: "demo".to_string(),
        source_path: "definitely_missing_dir".to_string(),
        dest_path: "out".to_string(),
        is_root: false,
    };
    assert!(process_workspace(&ws, &engine, &rc, "npm").is_err());
}

#[test]
fn materializing_twice_plans_the_same_writes() {
    let engine = initialize_tera("src").unwrap();
    let rc = render_context("demo", "npm");
    let ws = Workspace {
        name: "demo".to_string(),
        source_path: "src".to_string(),
        dest_path: "out".to_string(),
        is_root: false,
    };
    let first = process_workspace(&ws, &engine, &rc, "npm").unwrap();
    let second = process_workspace(&ws, &engine, &rc, "npm").unwrap();
    assert_eq!(first.len(), second.len());
    for (a, b) in first.iter().zip(second.iter()) {
        match (a, b) {
            (
                WriteCmd::Copied { source: s1, dest: d1 },
                WriteCmd::Copied { source: s2, dest: d2 },
            ) => {
                assert_eq!(s1, s2);
                assert_eq!(d1, d2);
            },
            (
                WriteCmd::Rendered { dest: d1, contents: c1 },
                WriteCmd::Rendered { dest: d2, contents: c2 },
            ) => {
                assert_eq!(d1, d2);
                assert_eq!(c1, c2);
            },
            _ => panic!("the two runs disagree on a write's kind"),
        }
    }
}

#[test]
fn root_workspace_only_takes_immediate_children() {
    // a root workspace plans only the immediate children of its source,
    // and every planned destination sits directly under the project root
    let engine = initialize_tera("src").unwrap();
    let rc = render_context("demo", "npm");
    let root = Workspace {
        name: "root".to_string(),
        source_path: "src".to_string(),
        dest_path: "out".to_string(),
        is_root: true,
    };
    let cmds = process_workspace(&root, &engine, &rc, "npm").unwrap();
    assert!(!cmds.is_empty());
    for cmd in &cmds {
        let dest = match cmd {
            WriteCmd::Copied { dest, .. } => dest,
            WriteCmd::Rendered { dest, .. } => dest,
        };
        let rel = dest.strip_prefix("out/").expect("every write lands under the destination");
        assert!(
            !rel.contains('/'),
            "a nested file leaked into the root plan: {}",
            rel
        );
    }
}

#[test]
fn rendering_an_unknown_template_is_a_render_error() {
    // the registry built over `src` holds no templates, so rendering the
    // routed template must fail at the render contract
    let engine = initialize_tera("src").unwrap();
    let rc = render_context("demo", "npm");
    let ws = Workspace {
        name: "demo".to_string(),
        source_path: "src".to_string(),
        dest_path: "out".to_string(),
        is_root: false,
    };
    let r = process_template(&ws, &engine, &rc, "missing.txt.tera");
    match r {
        Err(FatalError::Render(m)) => {
            assert!(m.starts_with("Failed to render template missing.txt.tera: "));
        },
        _ => panic!("expected a render error"),
    }
}

#[test]
fn default_logger_prints_up_to_debug() {
    let logger = initialize_logger();
    assert!(logger.enabled(Level::Error));
    assert!(logger.enabled(Level::Info));
    assert!(logger.enabled(Level::Debug));
    assert!(!logger.enabled(Level::Trace));
    log_trace("never printed");
}
