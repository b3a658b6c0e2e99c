use rust_saas::compose::{ProjectContainerConfig, ProjectFileInfo};
use rust_saas::docker::{
    compose_file_path, deployment_result, deployment_started, CleanupTarget, ContainerDeployer,
    DEPLOYMENT_FILES_MESSAGE, DEPLOYMENT_STARTED_MESSAGE,
};
use rust_saas::paths::{format_container_name, get_debug_directory};

fn config(id: i64, name: &str) -> ProjectContainerConfig {
    ProjectContainerConfig {
        id,
        container_name: name.to_string(),
        image_name: String::new(),
        published_ports: String::new(),
        volumes: String::new(),
        environment: String::new(),
        working_dir: String::new(),
        command: String::new(),
    }
}

fn targets(ts: &[CleanupTarget]) -> Vec<(bool, String)> {
    ts.iter()
        .map(|t| match t {
            CleanupTarget::Container(n) => (true, n.clone()),
            CleanupTarget::Network(n) => (false, n.clone()),
        })
        .collect()
}

#[test]
fn compose_project_of_debug_dir() {
    assert_eq!(ContainerDeployer::compose_project_name("/debug/7/9"), "7-9");
    assert_eq!(ContainerDeployer::compose_project_name("/debug/7/9/"), "7-9");
    assert_eq!(ContainerDeployer::compose_project_name("/debug/./7//9"), "7-9");
    assert_eq!(ContainerDeployer::compose_project_name("x"), "0-x");
    assert_eq!(ContainerDeployer::compose_project_name(""), "0-default");
    assert_eq!(ContainerDeployer::compose_project_name("/a/../b"), "0-b");
    assert_eq!(ContainerDeployer::compose_project_name("/a/b/.."), "b-default");
}

#[test]
fn cleanup_targets_from_compose_file() {
    let content = "version: '3.8'\nservices:\n  web:\n    image: app\n    container_name: \"1-2-3\"\n    ports:\n    - 80\nnetworks:\n  1-2-0:\n    driver: bridge\n  ext:\n    external: true\n    name: ext\n";
    let ts = ContainerDeployer::cleanup_targets(content, "1-2");
    assert_eq!(
        targets(&ts),
        vec![
            (false, "1-2_web".to_string()),
            (true, "1-2-3".to_string()),
            (false, "1-2_1-2-0".to_string()),
            (false, "1-2_ext".to_string()),
        ]
    );
    assert!(ContainerDeployer::cleanup_targets("", "p").is_empty());
}

#[test]
fn port_mappings() {
    let ms = ContainerDeployer::port_mappings_of("web", Some("0.0.0.0:8080->80/tcp, :::8080->80/tcp, 443/tcp"));
    let got: Vec<(String, String, String)> = ms
        .iter()
        .map(|m| (m.container_name.clone(), m.host_port.clone(), m.container_port.clone()))
        .collect();
    assert_eq!(
        got,
        vec![
            ("web".to_string(), "0.0.0.0:8080".to_string(), "80/tcp".to_string()),
            ("web".to_string(), ":::8080".to_string(), "80/tcp".to_string()),
        ]
    );
    assert!(ContainerDeployer::port_mappings_of("web", None).is_empty());
    assert!(ContainerDeployer::port_mappings_of("web", Some("a->b->c")).is_empty());
}

#[test]
fn container_statuses() {
    let out = "web|\"npm start\"|running|0.0.0.0:80->80/tcp\n\nbad line\ndb|cmd|exited\n";
    let st = ContainerDeployer::parse_container_statuses(out);
    assert_eq!(st.len(), 2);
    assert_eq!(st[0].name, "web");
    assert_eq!(st[0].command, "\"npm start\"");
    assert_eq!(st[0].state, "running");
    assert_eq!(st[0].ports, "0.0.0.0:80->80/tcp");
    assert_eq!(st[1].name, "db");
    assert_eq!(st[1].state, "exited");
    assert_eq!(st[1].ports, "");
}

#[test]
fn command_output_reading() {
    assert!(ContainerDeployer::container_running(b" true\n"));
    assert!(!ContainerDeployer::container_running(b"false\n"));
    let ok = ContainerDeployer::command_result(true, b"out", b"err");
    assert!(ok.success);
    assert_eq!(ok.output, "out");
    assert!(ok.error.is_none());
    // invalid UTF-8 is replaced, not passed through
    let bad = ContainerDeployer::command_result(false, b"ok\xff", b"e\xfe");
    assert_eq!(bad.output, "ok\u{FFFD}");
    assert_eq!(bad.error, Some("e\u{FFFD}".to_string()));
    assert_eq!(ContainerDeployer::joined_output(b"a", b"b"), "a\nb");
}

#[test]
fn commands_and_paths() {
    assert_eq!(ContainerDeployer::exec_command_line(1, 2, 3, "ls -la"), "docker exec 1-2-3 ls -la");
    assert_eq!(
        ContainerDeployer::logs_args(Some("web"), Some(100)),
        vec!["logs", "--tail", "100", "web"]
    );
    assert_eq!(ContainerDeployer::logs_args(None, None), vec!["logs"]);
    assert_eq!(ContainerDeployer::stream_line(true, "x"), "stdout: x");
    assert_eq!(ContainerDeployer::stream_line(false, "y"), "stderr: y");
    let f = ProjectFileInfo { id: 1, name: "main.rs".to_string(), directory: "src".to_string(), content: None };
    assert_eq!(ContainerDeployer::volume_file_path("/v/web", &f), "/v/web/src/main.rs");
    let g = ProjectFileInfo { id: 2, name: "a.txt".to_string(), directory: String::new(), content: None };
    assert_eq!(ContainerDeployer::volume_file_path("/v/web/", &g), "/v/web/a.txt");
    assert_eq!(ContainerDeployer::container_file_dir(Some("src")), "/app/src");
    assert_eq!(ContainerDeployer::container_file_dir(Some("")), "/app");
    assert_eq!(ContainerDeployer::container_file_dir(None), "/app");
    assert_eq!(ContainerDeployer::copy_destination("1-2-3", "/app/x"), "1-2-3:/app/x");
    assert_eq!(ContainerDeployer::refresh_message("a", "/p"), "File a refreshed at /p");
}

#[test]
fn deployment_names_skip_compose_entry() {
    let cs = vec![config(3, "web"), config(9, "docker-compose.yml"), config(4, "db")];
    let (names, containers) = ContainerDeployer::deployment_names(1, 2, &cs);
    assert_eq!(
        names,
        std::collections::HashMap::from([(3, "dockerfile-3".to_string()), (4, "dockerfile-4".to_string())])
    );
    assert_eq!(containers, vec!["1-2-3", "1-2-4"]);
}

#[test]
fn compose_project_matches_container_names() {
    for (u, p) in [(7, 9), (1, -2), (123, 0)] {
        let project = ContainerDeployer::compose_project_name(&get_debug_directory(u, p));
        assert_eq!(project, format!("{}-{}", u, p));
        assert_eq!(format_container_name(u, p, 5), format!("{}-5", project));
    }
}

#[test]
fn deployment_results() {
    assert_eq!(compose_file_path(1, 2), "/debug/1/2/docker-compose.yml");
    let r = deployment_result(1, 2, vec!["1-2-3".to_string()], compose_file_path(1, 2));
    assert!(r.success);
    assert_eq!(r.message, "Deployment files generated successfully");
    assert_eq!(r.message, DEPLOYMENT_FILES_MESSAGE);
    assert_eq!(r.debug_dir, "/debug/1/2");
    assert_eq!(r.container_names, vec!["1-2-3"]);
    assert_eq!(r.docker_compose_path, "/debug/1/2/docker-compose.yml");
    let s = deployment_started(r);
    assert!(s.success);
    assert_eq!(s.message, DEPLOYMENT_STARTED_MESSAGE);
    assert_eq!(s.message, "Deployment started successfully");
    assert_eq!(s.debug_dir, "/debug/1/2");
    assert_eq!(s.container_names, vec!["1-2-3"]);
}

#[test]
fn ids_give_distinct_names_and_directories() {
    assert_eq!(format_container_name(1, -2, 3), "1--2-3");
    assert_ne!(format_container_name(1, 23, 4), format_container_name(12, 3, 4));
    assert_ne!(format_container_name(-1, 2, 3), format_container_name(1, -2, 3));
    assert_eq!(get_debug_directory(7, -3), "/debug/7/-3");
    assert_ne!(get_debug_directory(1, 23), get_debug_directory(12, 3));
}
