use rust_saas::compose::{
    build_service, csv_items_exec, dockerfile_name, generate_docker_compose_config,
    generate_dockerfile_content, is_compose_config, parse_ports, service_env_exec,
    service_volumes_exec, ProjectContainerConfig, ProjectDeploymentContext,
};
use rust_saas::compose::{copy_config, find_compose_entry, new_compose_entry};
use rust_saas::docker::without_compose_entry;
use rust_saas::paths::{
    format_container_name, format_volume_name, get_container_volume_directory,
    get_debug_directory, join_path_chars, mcp_server_url,
};

fn chars(s: &str) -> Vec<char> {
    s.chars().collect()
}

fn text(v: &[char]) -> String {
    v.iter().collect()
}

fn config(id: i64, name: &str) -> ProjectContainerConfig {
    ProjectContainerConfig {
        id,
        container_name: name.to_string(),
        image_name: "img".to_string(),
        published_ports: "8080:80, 9000".to_string(),
        volumes: "./src:/code,/data:/data".to_string(),
        environment: "A=1, B=2".to_string(),
        working_dir: "/code".to_string(),
        command: String::new(),
    }
}

fn context(configs: Vec<ProjectContainerConfig>) -> ProjectDeploymentContext {
    ProjectDeploymentContext {
        user_id: 1,
        project_id: 2,
        project_name: "demo".to_string(),
        agent_id: None,
        model_id: None,
        container_configs: configs,
        project_files: vec![],
        container_name: "1-2-0".to_string(),
        mcp_server_url: "http://1-2-0:80".to_string(),
        debug_dir: "/debug/1/2".to_string(),
    }
}

#[test]
fn debug_and_volume_directories() {
    assert_eq!(get_debug_directory(1, 2), "/debug/1/2");
    assert_eq!(get_debug_directory(-3, 40), "/debug/-3/40");
    assert_eq!(get_container_volume_directory(1, 2, "web"), "/debug/1/2/volumes/web");
    // an absolute name replaces the base, as path joining does
    assert_eq!(get_container_volume_directory(1, 2, "/abs"), "/abs");
}

#[test]
fn join_paths() {
    assert_eq!(text(&join_path_chars(&chars("/a/"), &chars("b"))), "/a/b");
    assert_eq!(text(&join_path_chars(&chars("/a"), &chars("b"))), "/a/b");
    assert_eq!(text(&join_path_chars(&chars("/a"), &chars("/b"))), "/b");
}

#[test]
fn container_and_volume_names() {
    assert_eq!(format_container_name(1, 2, 3), "1-2-3");
    assert_eq!(format_container_name(10, 0, -1), "10-0--1");
    assert_eq!(format_volume_name(1, 2, "my data/x"), "vol_1_2_my_data_x");
    assert_eq!(format_volume_name(1, 2, "a.b-c_d"), "vol_1_2_a.b-c_d");
    assert_eq!(mcp_server_url("1-2-0"), "http://1-2-0:80");
}

#[test]
fn comma_separated_items() {
    let items: Vec<String> = csv_items_exec(" a , ,b,").iter().map(|v| text(v)).collect();
    assert_eq!(items, vec!["a".to_string(), "b".to_string()]);
    assert!(csv_items_exec("").is_empty());
}

#[test]
fn ports_keep_container_side() {
    assert_eq!(parse_ports("8080:80, 9000, 1:2:3"), vec!["80", "9000", "3"]);
    assert!(parse_ports("").is_empty());
}

#[test]
fn volumes_resolve_host_paths_and_add_app() {
    let vol = chars("/debug/1/2/volumes/web");
    let v = service_volumes_exec(&vol, "./src:/code,/data/:/data, rel:/r");
    assert_eq!(
        v,
        vec![
            "/debug/1/2/volumes/web/src:/code",
            "/data:/data",
            "/debug/1/2/volumes/web/rel:/r",
            "/debug/1/2/volumes/web:/app",
        ]
    );
    // a mapping onto /app replaces the default one
    let w = service_volumes_exec(&vol, "/x:/app,/y:/app");
    assert_eq!(w, vec!["/y:/app"]);
    // an item without ':' is skipped
    assert_eq!(service_volumes_exec(&vol, "nocolon"), vec!["/debug/1/2/volumes/web:/app"]);
}

#[test]
fn environment_gets_ids() {
    assert_eq!(service_env_exec("A=1, B=2", 1, 2), vec!["A=1", "B=2", "PROJECT_ID=2", "USER_ID=1"]);
    assert_eq!(service_env_exec("", 5, 6), vec!["PROJECT_ID=6", "USER_ID=5"]);
}

#[test]
fn dockerfile_text() {
    let c = config(3, "web");
    assert_eq!(
        generate_dockerfile_content(&c),
        "FROM app-debug-base:latest\n\nWORKDIR /code\n\n# Environment variables\nENV A=1\nENV B=2\n\n"
    );
    let mut bare = config(4, "x");
    bare.working_dir = String::new();
    bare.environment = String::new();
    assert_eq!(generate_dockerfile_content(&bare), "FROM app-debug-base:latest\n\n");
    assert_eq!(dockerfile_name(3), "dockerfile-3");
}

#[test]
fn compose_entry_is_recognised() {
    assert!(is_compose_config(&config(1, "docker-compose.yml")));
    assert!(!is_compose_config(&config(1, "web")));
}

#[test]
fn service_for_configuration() {
    let ctx = context(vec![config(3, "web")]);
    let names = std::collections::HashMap::from([(3, "dockerfile-3".to_string())]);
    let s = build_service(&ctx, &ctx.container_configs[0], &names);
    assert_eq!(s.image, "app-debug-base:latest");
    let b = s.build.unwrap();
    assert_eq!(b.context, ".");
    assert_eq!(b.dockerfile, "dockerfile-3");
    assert_eq!(s.ports, vec!["80", "9000"]);
    assert_eq!(
        s.volumes,
        vec!["/debug/1/2/volumes/web/src:/code", "/data:/data", "/debug/1/2/volumes/web:/app"]
    );
    assert_eq!(s.environment, vec!["A=1", "B=2", "PROJECT_ID=2", "USER_ID=1"]);
    assert!(s.command.is_none());
    assert_eq!(s.working_dir, Some("/code".to_string()));
    assert_eq!(s.restart, "unless-stopped");
    assert_eq!(s.privileged, Some(true));
    assert_eq!(s.networks, Some(vec!["1-2-0".to_string(), "rust-saas_default".to_string()]));
    assert_eq!(s.container_name, Some("1-2-3".to_string()));
    let none = build_service(&ctx, &ctx.container_configs[0], &std::collections::HashMap::new());
    assert!(none.build.is_none());
}

#[test]
fn compose_file_for_project() {
    let ctx = context(vec![
        config(3, "web"),
        config(9, "docker-compose.yml"),
        config(4, "db"),
        config(3, "web2"),
    ]);
    let c = generate_docker_compose_config(&ctx, &std::collections::HashMap::new());
    assert_eq!(c.version, "3.8");
    let keys: Vec<&str> = c.services.iter().map(|(k, _)| k.as_str()).collect();
    assert_eq!(keys, vec!["3", "4"]);
    // the later configuration with id 3 replaces the earlier in place
    assert_eq!(c.services[0].1.volumes[0], "/debug/1/2/volumes/web2/src:/code");
    assert_eq!(c.networks.len(), 2);
    assert_eq!(c.networks[0].0, "1-2-0");
    assert_eq!(c.networks[0].1.driver, Some("bridge".to_string()));
    assert_eq!(c.networks[1].0, "rust-saas_default");
    assert_eq!(c.networks[1].1.external, Some(true));
    assert!(c.volumes.is_empty());
}

#[test]
fn compose_entry_bookkeeping() {
    let cs = vec![config(3, "web"), config(9, "docker-compose.yml"), config(4, "db"), config(10, "docker-compose.yml")];
    assert_eq!(find_compose_entry(&cs), Some(1));
    assert_eq!(find_compose_entry(&vec![config(3, "web")]), None);
    let e = new_compose_entry("version: '3.8'\n".to_string());
    assert_eq!(e.id, 0);
    assert_eq!(e.container_name, "docker-compose.yml");
    assert_eq!(e.command, "version: '3.8'\n");
    assert!(is_compose_config(&e));
    let only: Vec<i64> = without_compose_entry(&cs).iter().map(|c| c.id).collect();
    assert_eq!(only, vec![3, 4]);
    let c = copy_config(&cs[0]);
    assert_eq!((c.id, c.container_name.as_str(), c.volumes.as_str()), (3, "web", "./src:/code,/data:/data"));
}
