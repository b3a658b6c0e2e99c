use rust_saas::compose::{ProjectContainerConfig, ProjectDeploymentContext, ProjectFileInfo};
use rust_saas::llm::{
    llm_tools, local_messages, offered_tools, piece_response, proxy_for_address, proxy_for_model,
    relay, with_system_prompt, ChatMessage, ProxyKind,
};
use rust_saas::local_chat::{greeting_message, LLMLlamaWrapper, UserSession, DEMO_CHUNKS};
use rust_saas::mcp::McpTool;
use rust_saas::memory::ChatMsgPiece;
use rust_saas::ontology::{entity_type_cn_map, get_domain_ontology, relation_type_cn_map};
use rust_saas::prompts::{
    collect_chunk, deployment_messages, deployment_model, generate_llm_deployment_prompt,
    generate_llm_execute_command_prompt, model_endpoint, retry_tool_list, DEPLOY_CONFIGS_HEAD,
    DEPLOY_HEAD, DEPLOY_ROLE, DEPLOY_RULES, DEPLOY_TAIL, TOOL_LIST_ATTEMPTS,
};
use rust_saas::service::{
    document_stats, download_response, generate_object_key, health_status, json_charset,
    object_key, object_prefix, parse_u16, presigned_seconds, stats_days, summary_days,
    AnalyticsQuery, DocumentStatsQuery, GetPresignedUrlRequest, MilvusConfig, MinioConfig,
};
use rust_saas::tool_calls::StreamResponse;

#[test]
fn object_store_settings_and_keys() {
    let d = MinioConfig::default();
    assert_eq!(d.endpoint, "http://localhost:9000");
    assert_eq!(d.bucket, "vec-svc");
    let c = MinioConfig::from_env(Some("http://s3:9000".to_string()), None, None, Some("b".to_string()));
    assert_eq!(c.endpoint, "http://s3:9000");
    assert_eq!(c.access_key, "minioadmin");
    assert_eq!(c.secret_key, "minioadmin");
    assert_eq!(c.bucket, "b");
    assert_eq!(object_key(Some(7), 1700, "a/b\u{7}.txt"), "project_7/1700_a_b_.txt");
    assert_eq!(object_key(None, 5, "文件.pdf"), "global/5_文件.pdf");
    let k = generate_object_key(Some(3), "x.txt");
    assert!(k.starts_with("project_3/") && k.ends_with("_x.txt"));
    assert_eq!(object_prefix(Some(3)), "project_3/");
    assert_eq!(object_prefix(None), "");
    let r = download_response(vec![1, 2]);
    assert_eq!(r.content, vec![1, 2]);
    assert_eq!(r.content_type, "application/octet-stream");
    assert_eq!(presigned_seconds(&GetPresignedUrlRequest { expires_hours: None }), 86400);
    assert_eq!(presigned_seconds(&GetPresignedUrlRequest { expires_hours: Some(2) }), 7200);
}

#[test]
fn ports_and_vector_database() {
    assert_eq!(parse_u16("19530"), Some(19530));
    assert_eq!(parse_u16("+80"), Some(80));
    assert_eq!(parse_u16("65535"), Some(65535));
    assert_eq!(parse_u16("65536"), None);
    assert_eq!(parse_u16(""), None);
    assert_eq!(parse_u16("+"), None);
    assert_eq!(parse_u16("8a"), None);
    assert_eq!(parse_u16(" 80"), None);
    let c = MilvusConfig::from_env(None, Some("abc".to_string()), None);
    assert_eq!(c.host, "localhost");
    assert_eq!(c.port, 19530);
    assert_eq!(c.database, "default");
    let d = MilvusConfig::from_env(Some("db".to_string()), Some("1234".to_string()), Some("kb".to_string()));
    assert_eq!(d.url(), "http://db:1234");
}

#[test]
fn small_answers() {
    assert_eq!(health_status(true, true).status, "healthy");
    assert_eq!(health_status(true, false).status, "degraded");
    assert_eq!(summary_days(&AnalyticsQuery { project_id: None, days: None }), 7);
    assert_eq!(summary_days(&AnalyticsQuery { project_id: None, days: Some(3) }), 3);
    assert_eq!(stats_days(&DocumentStatsQuery { document_id: 1, days: None }), 30);
    let s = document_stats(4, Some(10), None);
    assert_eq!((s.document_id, s.view_count, s.search_count, s.share_count, s.average_read_time), (4, 10, 0, 0, 0));
    assert_eq!(json_charset("application/json"), Some("application/json; charset=utf-8".to_string()));
    assert_eq!(json_charset("application/json; charset=utf-8"), None);
    assert_eq!(json_charset("text/html"), None);
}

#[test]
fn model_clients_and_messages() {
    assert_eq!(proxy_for_model(""), ProxyKind::Local);
    assert_eq!(proxy_for_model("https://api.example.com"), ProxyKind::OpenAi);
    assert_eq!(proxy_for_address("127.0.0.1:8080"), ProxyKind::Local);
    assert_eq!(proxy_for_address("http://127.0.0.1"), ProxyKind::OpenAi);
    let mut ms = vec![ChatMessage::text("user", "hi".to_string())];
    with_system_prompt(&mut ms, Some("be brief".to_string()));
    assert_eq!(ms.len(), 2);
    assert_eq!(ms[0].role, "system");
    assert_eq!(ms[0].content, Some("be brief".to_string()));
    assert_eq!(ms[1].role, "user");
    with_system_prompt(&mut ms, None);
    assert_eq!(ms.len(), 2);
    assert_eq!(offered_tools::<i32>(vec![]), None);
    assert_eq!(offered_tools(vec![1, 2]), Some(vec![1, 2]));
    let t = ChatMessage::tool_result(Some("c1".to_string()), "run".to_string(), "out".to_string(), None);
    assert_eq!(t.role, "tool");
    assert_eq!(t.name, Some("run".to_string()));
    assert_eq!(t.tool_call_id, Some("c1".to_string()));
}

#[test]
fn relaying_a_stream() {
    let item = StreamResponse { content: "x".to_string(), reasoning_content: None, tool_calls: None, finish_reason: None, done: false };
    let r = relay(Some(Ok(item)));
    assert_eq!(r.content, "x");
    assert!(!r.done);
    let e = relay(Some(Err("broken".to_string())));
    assert!(e.done);
    assert_eq!(e.finish_reason, Some("stop".to_string()));
    assert!(relay(None).done);
    let p = piece_response(ChatMsgPiece::new(vec![1], "tok".to_string(), true, None));
    assert_eq!(p.content, "tok");
    assert!(p.done);
}

#[test]
fn local_model_conversation() {
    let session = UserSession { user_id: 1, project_id: 2, flow_id: 3, workspace_id: 4 };
    let mut with_session = ChatMessage::text("user", "a".to_string());
    with_session.session = Some(session);
    let mut no_content = ChatMessage::text("assistant", String::new());
    no_content.content = None;
    let ms = vec![with_session, no_content, ChatMessage::text("system", "b".to_string())];
    let local = local_messages(&ms);
    assert_eq!(local.len(), 2);
    assert_eq!(local[0].ids(), (1, 2, 3, 4));
    assert_eq!(local[1].ids(), (0, 0, 0, 0));
    assert_eq!(local[1].role_and_content(), ("system".to_string(), "b".to_string()));
    let tools = vec![McpTool {
        name: "exec".to_string(),
        description: "run".to_string(),
        input_schema: "{}".to_string(),
        output_schema: "{}".to_string(),
        server_id: Some(1),
    }];
    let lt = llm_tools(&tools);
    assert_eq!(lt.len(), 1);
    assert_eq!(lt[0].tool_type, "function");
    assert_eq!(lt[0].name, "exec");
    assert_eq!(lt[0].parameters, "{}");
}

#[test]
fn stand_in_model() {
    let w = LLMLlamaWrapper::new("/models/x.gguf".to_string());
    assert_eq!(w.model_path, "/models/x.gguf");
    let cs = w.demo_chunks();
    assert_eq!(cs.len(), DEMO_CHUNKS);
    assert_eq!(cs[0].content, "Token chunk 0 ");
    assert_eq!(cs[4].content, "Token chunk 4 ");
    assert!(cs[4].done && !cs[3].done);
    let g = greeting_message();
    assert_eq!(g.role, "user");
    assert_eq!(g.content, Some("Hello".to_string()));
    assert_eq!(g.session, UserSession { user_id: 1, project_id: 1, flow_id: 1, workspace_id: 1 });
}

#[test]
fn domain_ontology() {
    let o = get_domain_ontology();
    let names: Vec<&str> = o.entity_types.iter().map(|e| e.name.as_str()).collect();
    assert_eq!(names, vec!["Task", "Document", "Decision", "Person", "Organization", "Product", "Technology", "Concept"]);
    for r in &o.relation_types {
        for t in r.source_types.iter().chain(r.target_types.iter()) {
            assert!(names.contains(&t.as_str()), "{} links unknown type {}", r.name, t);
        }
    }
    let cn: Vec<String> = entity_type_cn_map().into_iter().map(|p| p.0).collect();
    assert_eq!(cn, names);
    let rn: Vec<String> = relation_type_cn_map().into_iter().map(|p| p.0).collect();
    let rnames: Vec<String> = o.relation_types.iter().map(|r| r.name.clone()).collect();
    assert_eq!(rn, rnames);
    assert_eq!(entity_type_cn_map()[0].1, "任务");
}

fn context(files: Vec<ProjectFileInfo>, model_id: Option<i64>) -> ProjectDeploymentContext {
    ProjectDeploymentContext {
        user_id: 1,
        project_id: 2,
        project_name: "demo".to_string(),
        agent_id: Some(5),
        model_id,
        container_configs: vec![ProjectContainerConfig {
            id: 3,
            container_name: "web".to_string(),
            image_name: "node".to_string(),
            published_ports: "80".to_string(),
            volumes: String::new(),
            environment: "A=1".to_string(),
            working_dir: "/app".to_string(),
            command: "npm start".to_string(),
        }],
        project_files: files,
        container_name: "1-2-3".to_string(),
        mcp_server_url: "http://1-2-3:80".to_string(),
        debug_dir: "/debug/1/2".to_string(),
    }
}

#[test]
fn deployment_instructions() {
    let long = "x".repeat(600);
    let files = vec![
        ProjectFileInfo { id: 1, name: "a.js".to_string(), directory: "src".to_string(), content: Some("let a;".to_string()) },
        ProjectFileInfo { id: 2, name: "b.txt".to_string(), directory: String::new(), content: Some(long.clone()) },
        ProjectFileInfo { id: 3, name: "c".to_string(), directory: String::new(), content: None },
    ];
    let ctx = context(files, None);
    let expected = format!(
        "{}用户ID: 1\n项目ID: 2\n项目名称: demo\nAgent ID: Some(5)\nModel ID: None\n{}\
- 文件路径: src/a.js\n  文件内容:\nlet a;\n\n\
- 文件路径: b.txt\n  文件内容:\n{}\n...(内容过长，已截断)\n\n\
- 文件路径: c\n\n{}\
容器名称: web\n镜像: node\n端口映射: 80\n环境变量: A=1\n工作目录: /app\n启动命令: npm start\n卷映射目录: /debug/1/2/volumes/web\n\n{}",
        DEPLOY_HEAD, DEPLOY_RULES, &long[..500], DEPLOY_CONFIGS_HEAD, DEPLOY_TAIL
    );
    assert_eq!(generate_llm_deployment_prompt(&ctx), expected);
    let ms = deployment_messages(&ctx);
    assert_eq!(ms.len(), 5);
    assert_eq!(ms[0], ("system".to_string(), DEPLOY_ROLE.to_string()));
    assert_eq!(ms[4], ("user".to_string(), expected));
    assert_eq!(
        generate_llm_execute_command_prompt("ls", &ctx),
        "请在工作区项目容器中执行以下命令。\n\n项目信息：用户ID=1, 项目ID=2\n\n命令：ls\n\n请执行命令并返回执行结果。如果命令涉及容器操作，请使用正确的容器名称格式：USER_ID-PROJECT_ID-容器名称"
    );
}

#[test]
fn deployment_model_and_endpoint() {
    assert_eq!(deployment_model(&context(vec![], Some(8))), Ok(8));
    assert_eq!(deployment_model(&context(vec![], None)), Err("No model configured for project".to_string()));
    let s = |x: &str| Some(x.to_string());
    assert_eq!(
        model_endpoint(s("u"), s("k"), s("n")),
        Ok(("u".to_string(), "k".to_string(), "n".to_string()))
    );
    assert_eq!(model_endpoint(None, None, None), Err("Model access_url not found".to_string()));
    assert_eq!(model_endpoint(s("u"), None, None), Err("Model api_key not found".to_string()));
    assert_eq!(model_endpoint(s("u"), s("k"), None), Err("Model name not found".to_string()));
}

#[test]
fn tool_list_retries_and_chunks() {
    let mut failures: u32 = 0;
    let mut asked = 1;
    while retry_tool_list(&mut failures) {
        asked += 1;
    }
    assert_eq!(failures, TOOL_LIST_ATTEMPTS);
    assert_eq!(asked, TOOL_LIST_ATTEMPTS);
    let mut full = String::new();
    assert!(!collect_chunk(&mut full, "Hel", false));
    assert!(!collect_chunk(&mut full, "[DONE]", false));
    assert!(!collect_chunk(&mut full, "", false));
    assert!(collect_chunk(&mut full, "lo", true));
    assert_eq!(full, "Hello");
}

#[test]
fn test_config() {
    // the settings as read from an environment that sets none of them
    let config = MilvusConfig::from_env(None, None, None);
    println!("Milvus URL: {}", config.url());
    assert_eq!(config.url(), "http://localhost:19530");
}
