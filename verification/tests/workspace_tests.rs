use rust_saas::compose::ProjectContainerConfig;
use rust_saas::docker::ContainerStatus;
use rust_saas::workspace::{
    attachment_header, chat_error_event, deployment_target, download_headers, find_target_status,
    get_voice_link_path, get_voice_path, message_deleted, project_entry_path, refresh_file_result,
    sanitize_path, sort_workspace_files, sse_frame, get_user_workspace_path, voice_audio, wants_voice,
    get_workspace_root, UserSession, VoiceDataBuffer, VoiceResponse, WorkspaceFile,
    DEFAULT_WORKSPACE_ROOT,
};

fn file(id: i64, name: &str, dir: bool) -> WorkspaceFile {
    WorkspaceFile {
        id,
        user_id: 1,
        file_path: format!("p/{}", name),
        file_name: name.to_string(),
        file_size: 0,
        is_directory: dir,
        created_at: 0,
        updated_at: 0,
    }
}

fn status(name: &str) -> ContainerStatus {
    ContainerStatus {
        name: name.to_string(),
        command: String::new(),
        state: "running".to_string(),
        ports: String::new(),
    }
}

fn config(id: i64, name: &str) -> ProjectContainerConfig {
    ProjectContainerConfig {
        id,
        container_name: name.to_string(),
        image_name: String::new(),
        published_ports: String::new(),
        volumes: String::new(),
        environment: String::new(),
        working_dir: String::new(),
        command: String::new(),
    }
}

#[test]
fn sanitized_paths_name_no_parent() {
    assert_eq!(sanitize_path("../../etc/passwd"), "etc/passwd");
    assert_eq!(sanitize_path("/a//b"), "a/b");
    assert_eq!(sanitize_path("a/..../b"), "a/b");
    assert_eq!(sanitize_path("..."), ".");
    assert_eq!(sanitize_path(".../..."), "./.");
    for p in ["....//..", "/../", "x/.../../y", "...."] {
        assert!(!sanitize_path(p).contains(".."), "{}", p);
    }
}

#[test]
fn workspace_places() {
    assert_eq!(get_workspace_root(None), DEFAULT_WORKSPACE_ROOT);
    assert_eq!(get_workspace_root(Some("/srv/ws".to_string())), "/srv/ws");
    assert_eq!(get_user_workspace_path("/srv/ws", 5), "/srv/ws/5");
    assert_eq!(get_user_workspace_path("/srv/ws/", 5), "/srv/ws/5");
    // an empty root gives a relative path, as `Path::join` does
    assert_eq!(get_user_workspace_path("", 5), "5");
    assert_eq!(
        get_user_workspace_path("", -5),
        std::path::PathBuf::from("").join((-5i64).to_string()).to_string_lossy()
    );
    assert_eq!(get_voice_path("/v", 1, 2, 3, "male", 42), "/v/1/2/3_male_42.wav");
    assert_eq!(get_voice_link_path(1, 2, 3, "male", -1), "/1/2/3_male_-1.wav");
    assert_eq!(project_entry_path("proj", "a.txt"), "proj/a.txt");
    assert_eq!(attachment_header("a b.txt"), "attachment; filename=\"a b.txt\"");
}

#[test]
fn download_types_by_extension() {
    let (mime, disp) = download_headers("/x/report.pdf", "report.pdf");
    assert_eq!(mime, "application/pdf");
    assert_eq!(disp, "attachment; filename=\"report.pdf\"");
    assert_eq!(download_headers("/x/noext", "noext").0, "application/octet-stream");
}

#[test]
fn voice_wanted_for_articles() {
    assert!(wants_voice("text", "article"));
    assert!(!wants_voice("", "article"));
    assert!(!wants_voice("text", "code"));
}

#[test]
fn listing_puts_directories_first_then_names() {
    let mut files = vec![
        file(1, "b.txt", false),
        file(2, "Zdir", true),
        file(3, "A.txt", false),
        file(4, "adir", true),
        file(5, "a.TXT", false),
    ];
    sort_workspace_files(&mut files);
    let ids: Vec<i64> = files.iter().map(|f| f.id).collect();
    // a.TXT and A.txt compare alike and keep their order
    assert_eq!(ids, vec![4, 2, 3, 5, 1]);
    let mut empty: Vec<WorkspaceFile> = vec![];
    sort_workspace_files(&mut empty);
    assert!(empty.is_empty());
}

#[test]
fn service_answers() {
    let s = UserSession::new(1, 2, 3);
    assert_eq!((s.user_id, s.project_id, s.config_id), (1, 2, 3));
    let r = refresh_file_result("out".to_string());
    assert!(r.success);
    assert_eq!(r.message, "File refreshed and command executed");
    assert_eq!(r.output, "out");
    let m = message_deleted(4, 9);
    assert_eq!((m.project_id, m.message_id), (4, 9));
    assert_eq!(m.message, "Message deleted");
    assert_eq!(sse_frame("hi"), "data: hi\n\n");
    assert_eq!(chat_error_event("LLM error", "oops"), "{\"error\": \"LLM error: oops\"}");
}

#[test]
fn target_container_of_status_request() {
    let ss = vec![status("other"), status("proj-1-2-3-x"), status("1-2-3")];
    assert_eq!(find_target_status(&ss, 1, 2, Some(3)), Some(1));
    assert_eq!(find_target_status(&ss, 1, 2, Some(4)), None);
    assert_eq!(find_target_status(&ss, 1, 2, None), None);
}

#[test]
fn deployment_talks_to_first_container() {
    let cs = vec![config(9, "docker-compose.yml"), config(4, "db"), config(5, "web")];
    assert_eq!(deployment_target(1, 2, &cs), ("1-2-4".to_string(), "http://1-2-4:80".to_string()));
    assert_eq!(deployment_target(1, 2, &vec![]), ("1-2-0".to_string(), "http://1-2-0:80".to_string()));
}

#[test]
fn voice_audio_is_decoded() {
    let ok = VoiceResponse {
        message: String::new(),
        success: true,
        data: Some(VoiceDataBuffer { buffer: "aGVsbG8=".to_string() }),
    };
    assert_eq!(voice_audio(&ok), Ok(Some(b"hello".to_vec())));
    let bad = VoiceResponse {
        message: String::new(),
        success: true,
        data: Some(VoiceDataBuffer { buffer: "***".to_string() }),
    };
    assert!(voice_audio(&bad).is_err());
    let failed = VoiceResponse { message: "no".to_string(), success: false, data: None };
    assert_eq!(voice_audio(&failed), Ok(None));
}
