//! The instructions given to the language model that deploys a project.
use vstd::prelude::*;
use vstd::string::StringSliceAdditionalSpecFns;
use crate::text::{i64_string, int_text};
use crate::paths::{get_container_volume_directory, volume_dir_spec};
use crate::compose::{is_compose_config, is_compose_entry, ProjectContainerConfig, ProjectDeploymentContext, ProjectFileInfo};

verus! {

/// The opening of the deployment instructions.
pub const DEPLOY_HEAD: &'static str = "作为一个专业的项目部署助手，你会锲而不舍的解决项目部署过程中遇到的问题。请按照以下步骤完成工作区项目的 Docker 容器部署：\n\n【工作区项目的 Docker 容器部署：\n\n【项目信息】\n";

/// The naming rules and start-up examples.
pub const DEPLOY_RULES: &'static str = "\n【工作区项目的 Docker 容器名称规则】\n容器名称格式: 用户ID_项目ID_容器名称\n容器名称示例: 1234567890_1234567890_app-debug-base\n【工作区项目的 Docker 容器完整启动方法】\n**容器启动后就会常驻，不需要单独设定常驻命令，但是项目需要执行其他命令才能运行起来，容器启动不代表项目启动**。\n容器启动前，需要你检测容器启动必须具备哪些生产环境，启动后，直接执行生产环境安装的命令，这个需要你通过MCP工具execute_command来完成。\n容器启动后，需要**进入到容器中编译项目、打包项目、执行项目，这个需要你通过MCP工具execute_command来完成**。\n项目容器启动例子(Vue-cli):\n1. 进入到容器中，检测到vue项目，执行npm install\n2. 编译项目\n，执行npm run build\n3. 打包项目\n，执行npm run build\n，执行npm run build:prod\n4. 执行项目\n，执行npm run dev或者执行npm run serve\n项目容器启动例子(java-maven):\n1. 进入到容器中，检测到java-maven项目，执行mvn install\n2. 编译项目\n，执行mvn compile\n3. 打包项目\n，执行mvn package\n4. 执行项目\n，执行mvn run或者执行java -jar target/your-project-name.jar\n项目容器启动例子(java-spring-boot):\n1. 进入到容器中，检测到java-maven项目，执行mvn install\n2. 编译项目\n，执行mvn compile\n3. 打包项目\n，执行mvn package\n4. 执行项目\n，执行mvn run或者执行java -jar target/your-project-name.jar\n项目容器启动例子(go-lang):\n1. 进入到容器中，检测到go-lang项目，执行go install\n2. 编译项目\n，执行go build\n3. 打包项目\n，执行go package\n4. 执行项目\n，执行go run\n【项目文件列表】（包含文件内容）\n";

/// The heading of the container list.
pub const DEPLOY_CONFIGS_HEAD: &'static str = "\n【容器配置】\n";

/// The tools, the task and the notes that close the instructions.
pub const DEPLOY_TAIL: &'static str = "\n1. **可用的 MCP 工具**：\n   - execute_command: 在容器内执行命令\n\n2. **使用 MCP 工具**：\n   - 通过 LLM 调用时，工具名称为 execute_command\n   - 在容器内可以通过 HTTP 请求调用 MCP 服务\n   - 示例：curl -X POST http://localhost:80/mcp/call -d '{\"tool\": \"execute_command\", \"args\": {\"command\": \"ls -la\"}}'\n\n【部署任务】\n你的任务是：\n1. **启动容器**：你在使用的时候，应该是已经启动了， 如果没有启动，请使用 docker-compose up -d 启动所有容器\n\n\n3. **检测代码环境**：分析代码内容，确定编程语言和版本\n\n4. **安装依赖和启动应用**：根据代码类型安装必要软件并启动应用，特别注意编译项目需要的安装环境，编译环境以及运行环境。\n   - 使用 execute_command 工具执行安装命令\n\n5. **监控和验证**：\n   - 确保 MCP-SSE 服务（端口 80）正常运行\n\n【注意事项】\n- 容器名称格式：{user_id}-{project_id}-{容器配置编号}\n- 卷目录格式：/debug/{user_id}/{project_id}/volumes/{容器名称}/\n- 卷映射格式：/debug/{user_id}/{project_id}/volumes/{容器名称}/:/app（或配置的工作目录）\n- 容器内部端口 80 是 MCP-SSE 通信端口，docker-compose 会自动映射到宿主机随机端口\n- 获取映射端口后，才能通过 HTTP 访问容器内的 MCP 服务\n- 如果项目有特殊依赖，请根据代码内容判断并安装\n- 使用 execute_command 工具执行所有操作\n\n请开始执行部署操作，并在完成后报告部署结果。";

/// `Some(<n>)` or `None`, as `{:?}` writes an `Option<i64>`.
pub open spec fn debug_opt(o: Option<i64>) -> Seq<char> {
    match o {
        Some(v) => "Some("@ + int_text(v as int) + ")"@,
        None => "None"@,
    }
}

/// The path of a project file: its directory, `/`, and its name.
pub open spec fn file_path_spec(f: ProjectFileInfo) -> Seq<char> {
    if f.directory@.len() == 0 {
        f.name@
    } else {
        f.directory@ + "/"@ + f.name@
    }
}

/// The bytes of a text in UTF-8.
pub open spec fn utf8_bytes(s: Seq<char>) -> Seq<u8> {
    vstd::utf8::encode_utf8(s)
}

/// A file content as shown to the model: cut after 500 bytes, with a note.
pub open spec fn preview_spec(c: Seq<char>) -> Seq<char> {
    if utf8_bytes(c).len() > 500 {
        vstd::utf8::decode_utf8(utf8_bytes(c).subrange(0, 500)) + "\n...(内容过长，已截断)"@
    } else {
        c
    }
}

/// A content can be cut after 500 bytes without splitting a character.
pub open spec fn previewable(c: Seq<char>) -> bool {
    utf8_bytes(c).len() > 500 ==> vstd::utf8::is_char_boundary(utf8_bytes(c), 500)
}

/// The lines that describe one project file.
pub open spec fn file_section(f: ProjectFileInfo) -> Seq<char> {
    "- 文件路径: "@ + file_path_spec(f) + "\n"@ + (match f.content {
        Some(c) => "  文件内容:\n"@ + preview_spec(c@) + "\n"@,
        None => Seq::empty(),
    }) + "\n"@
}

/// The descriptions of a list of project files.
pub open spec fn files_section(fs: Seq<ProjectFileInfo>) -> Seq<char>
    decreases fs.len(),
{
    if fs.len() == 0 {
        Seq::empty()
    } else {
        files_section(fs.drop_last()) + file_section(fs.last())
    }
}

/// The lines that describe one container configuration (none for the
/// compose entry).
pub open spec fn config_section(user_id: i64, project_id: i64, c: ProjectContainerConfig) -> Seq<char> {
    if is_compose_entry(c) {
        Seq::empty()
    } else {
        "容器名称: "@ + c.container_name@ + "\n"@ + "镜像: "@ + c.image_name@ + "\n"@ + "端口映射: "@
            + c.published_ports@ + "\n"@ + "环境变量: "@ + c.environment@ + "\n"@ + "工作目录: "@
            + c.working_dir@ + "\n"@ + "启动命令: "@ + c.command@ + "\n"@ + "卷映射目录: "@
            + volume_dir_spec(user_id, project_id, c.container_name@) + "\n"@ + "\n"@
    }
}

/// The descriptions of a list of container configurations.
pub open spec fn configs_section(user_id: i64, project_id: i64, cs: Seq<ProjectContainerConfig>) -> Seq<char>
    decreases cs.len(),
{
    if cs.len() == 0 {
        Seq::empty()
    } else {
        configs_section(user_id, project_id, cs.drop_last()) + config_section(user_id, project_id, cs.last())
    }
}

/// The deployment instructions for a project.
pub open spec fn deployment_prompt_spec(ctx: ProjectDeploymentContext) -> Seq<char> {
    DEPLOY_HEAD@ + "用户ID: "@ + int_text(ctx.user_id as int) + "\n"@ + "项目ID: "@ + int_text(
        ctx.project_id as int,
    ) + "\n"@ + "项目名称: "@ + ctx.project_name@ + "\n"@ + "Agent ID: "@ + debug_opt(ctx.agent_id)
        + "\n"@ + "Model ID: "@ + debug_opt(ctx.model_id) + "\n"@ + DEPLOY_RULES@ + files_section(
        ctx.project_files@,
    ) + DEPLOY_CONFIGS_HEAD@ + configs_section(ctx.user_id, ctx.project_id, ctx.container_configs@)
        + DEPLOY_TAIL@
}

fn append_debug_opt(s: &mut String, o: Option<i64>)
    ensures
        final(s)@ == old(s)@ + debug_opt(o),
{
    match o {
        Some(v) => {
            s.append("Some(");
            let d = i64_string(v);
            s.append(d.as_str());
            s.append(")");
        },
        None => s.append("None"),
    }
}

fn append_preview(s: &mut String, c: &String)
    requires
        previewable(c@),
    ensures
        final(s)@ == old(s)@ + preview_spec(c@),
{
    let cs = c.as_str();
    let bytes = cs.as_bytes();
    if bytes.len() > 500 {
        assert(cs.spec_bytes() == utf8_bytes(c@));
        let (head, _tail) = cs.split_at(500);
        proof {
            vstd::utf8::encode_utf8_decode_utf8(head@);
            assert(head.spec_bytes() =~= utf8_bytes(c@).subrange(0, 500));
            assert(vstd::utf8::decode_utf8(utf8_bytes(c@).subrange(0, 500)) == head@);
        }
        s.append(head);
        s.append("\n...(内容过长，已截断)");
    } else {
        assert(cs.spec_bytes() == utf8_bytes(c@));
        s.append(cs);
    }
}

fn append_config_section(p: &mut String, user_id: i64, project_id: i64, c: &ProjectContainerConfig)
    ensures
        final(p)@ == old(p)@ + config_section(user_id, project_id, *c),
{
    if !is_compose_config(c) {
        let vol = get_container_volume_directory(user_id, project_id, c.container_name.as_str());
        p.append("容器名称: ");
        p.append(c.container_name.as_str());
        p.append("\n");
        p.append("镜像: ");
        p.append(c.image_name.as_str());
        p.append("\n");
        p.append("端口映射: ");
        p.append(c.published_ports.as_str());
        p.append("\n");
        p.append("环境变量: ");
        p.append(c.environment.as_str());
        p.append("\n");
        p.append("工作目录: ");
        p.append(c.working_dir.as_str());
        p.append("\n");
        p.append("启动命令: ");
        p.append(c.command.as_str());
        p.append("\n");
        p.append("卷映射目录: ");
        p.append(vol.as_str());
        p.append("\n");
        p.append("\n");
    } else {
        assert(old(p)@ + Seq::<char>::empty() =~= old(p)@);
    }
}

/// The instructions that ask the model to deploy a project's containers:
/// the project, its files (each content cut after 500 bytes), and its
/// container configurations.
#[verifier::rlimit(40)]
pub fn generate_llm_deployment_prompt(context: &ProjectDeploymentContext) -> (p: String)
    requires
        forall|k: int|
            0 <= k < context.project_files@.len() ==> match (#[trigger] context.project_files@[k]).content {
                Some(c) => previewable(c@),
                None => true,
            },
    ensures
        p@ == deployment_prompt_spec(*context),
{
    let mut p = String::new();
    p.append(DEPLOY_HEAD);
    p.append("用户ID: ");
    let u = i64_string(context.user_id);
    p.append(u.as_str());
    p.append("\n");
    p.append("项目ID: ");
    let pid = i64_string(context.project_id);
    p.append(pid.as_str());
    p.append("\n");
    p.append("项目名称: ");
    p.append(context.project_name.as_str());
    p.append("\n");
    p.append("Agent ID: ");
    append_debug_opt(&mut p, context.agent_id);
    p.append("\n");
    p.append("Model ID: ");
    append_debug_opt(&mut p, context.model_id);
    p.append("\n");
    p.append(DEPLOY_RULES);
    let ghost head = p@;
    let fs = &context.project_files;
    let mut i: usize = 0;
    while i < fs.len()
        invariant
            0 <= i <= fs.len(),
            fs == &context.project_files,
            forall|k: int|
                0 <= k < fs@.len() ==> match (#[trigger] fs@[k]).content {
                    Some(c) => previewable(c@),
                    None => true,
                },
            p@ == head + files_section(fs@.take(i as int)),
        decreases fs.len() - i,
    {
        proof {
            assert(fs@.take(i + 1).drop_last() =~= fs@.take(i as int));
        }
        let f = &fs[i];
        p.append("- 文件路径: ");
        if f.directory.as_str().is_empty() {
            p.append(f.name.as_str());
        } else {
            p.append(f.directory.as_str());
            p.append("/");
            p.append(f.name.as_str());
        }
        p.append("\n");
        match &f.content {
            Some(c) => {
                assert(match fs@[i as int].content {
                    Some(c) => previewable(c@),
                    None => true,
                });
                p.append("  文件内容:\n");
                append_preview(&mut p, c);
                p.append("\n");
            },
            None => {},
        }
        p.append("\n");
        assert(p@ =~= head + files_section(fs@.take(i + 1)));
        i = i + 1;
    }
    assert(fs@.take(fs.len() as int) =~= fs@);
    p.append(DEPLOY_CONFIGS_HEAD);
    let ghost head2 = p@;
    let cs = &context.container_configs;
    let mut j: usize = 0;
    while j < cs.len()
        invariant
            0 <= j <= cs.len(),
            cs == &context.container_configs,
            p@ == head2 + configs_section(context.user_id, context.project_id, cs@.take(j as int)),
        decreases cs.len() - j,
    {
        proof {
            assert(cs@.take(j + 1).drop_last() =~= cs@.take(j as int));
        }
        append_config_section(&mut p, context.user_id, context.project_id, &cs[j]);
        assert(p@ =~= head2 + configs_section(context.user_id, context.project_id, cs@.take(j + 1)));
        j = j + 1;
    }
    assert(cs@.take(cs.len() as int) =~= cs@);
    p.append(DEPLOY_TAIL);
    p
}

/// The instruction that asks the model to run one command in a project's
/// container.
pub open spec fn execute_prompt_spec(command: Seq<char>, user_id: i64, project_id: i64) -> Seq<char> {
    "请在工作区项目容器中执行以下命令。\n\n项目信息：用户ID="@ + int_text(user_id as int) + ", 项目ID="@
        + int_text(project_id as int) + "\n\n命令："@ + command
        + "\n\n请执行命令并返回执行结果。如果命令涉及容器操作，请使用正确的容器名称格式：USER_ID-PROJECT_ID-容器名称"@
}

/// The instruction to run a command in a project's container.
pub fn generate_llm_execute_command_prompt(command: &str, context: &ProjectDeploymentContext) -> (p: String)
    ensures
        p@ == execute_prompt_spec(command@, context.user_id, context.project_id),
{
    let mut p = String::new();
    p.append("请在工作区项目容器中执行以下命令。\n\n项目信息：用户ID=");
    let u = i64_string(context.user_id);
    p.append(u.as_str());
    p.append(", 项目ID=");
    let pid = i64_string(context.project_id);
    p.append(pid.as_str());
    p.append("\n\n命令：");
    p.append(command);
    p.append("\n\n请执行命令并返回执行结果。如果命令涉及容器操作，请使用正确的容器名称格式：USER_ID-PROJECT_ID-容器名称");
    p
}

/// The role the model takes when it deploys a project.
pub const DEPLOY_ROLE: &'static str = "[ROLE]你是一个专业的项目部署助手。你需要分析项目文件，智能执行命令来启动调试服务器。请使用 execute_command工具来执行命令（如 npm install、npm run serve 等）。工作目录默认为 /app。";

/// How the model must call the command tool.
pub const DEPLOY_TOOL_USAGE: &'static str = "[TOOL USAGE] 你必须使用 execute_command 工具来执行命令，使用格式为 execute_command(command, workDir)，必须传入 command 和 workDir 参数，其中command是执行的命令，必须传入，不能省略，workDir是命令执行的工作目录，必须传入，不能省略。";

/// What the model checks before it runs a command.
pub const DEPLOY_TOOL_RULE: &'static str = "[TOOL USAGE RULE] 当你使用 execute_command 执行命令时，首选确定 command 命令存在，例如 mvn 命令，首先通过 whereis mvn 查看是否存在，如果不存在，需要你通过系统命令 apt install <package-name> 安装命令。";

/// The schema of the command tool.
pub const DEPLOY_TOOL_SCHEMA: &'static str = "[TOOL FUNCTION SCHEMA]  {\"name\":\"execute_command\",\"description\":\"Executes a system command and returns the output.  requires \\u0060command\\u0060 and \\u0060workDir\\u0060.the command is the \\u0060command\\u0060 you want to execute, the \\u0060workDir\\u0060 is the command executing in the /app directory or other effective directory.\",\"inputSchema\":{\"type\":\"object\",\"properties\":{\"command\":{\"description\":\"the command to execute\",\"type\":\"string\"},\"workDir\":{\"description\":\"working directory\",\"type\":\"string\"}},\"required\":[\"command\",\"workDir\"]}}) ";

/// The messages that ask the model to deploy a project: the four system
/// messages of role and tool rules, then the deployment instructions.
pub fn deployment_messages(context: &ProjectDeploymentContext) -> (r: Vec<(String, String)>)
    requires
        forall|k: int|
            0 <= k < context.project_files@.len() ==> match (#[trigger] context.project_files@[k]).content {
                Some(c) => previewable(c@),
                None => true,
            },
    ensures
        r@.map_values(|m: (String, String)| (m.0@, m.1@)) == seq![
            ("system"@, DEPLOY_ROLE@),
            ("system"@, DEPLOY_TOOL_USAGE@),
            ("system"@, DEPLOY_TOOL_RULE@),
            ("system"@, DEPLOY_TOOL_SCHEMA@),
            ("user"@, deployment_prompt_spec(*context)),
        ],
{
    let r = vec![
        ("system".to_string(), DEPLOY_ROLE.to_string()),
        ("system".to_string(), DEPLOY_TOOL_USAGE.to_string()),
        ("system".to_string(), DEPLOY_TOOL_RULE.to_string()),
        ("system".to_string(), DEPLOY_TOOL_SCHEMA.to_string()),
        ("user".to_string(), generate_llm_deployment_prompt(context)),
    ];
    assert(r@.map_values(|m: (String, String)| (m.0@, m.1@)) =~= seq![
        ("system"@, DEPLOY_ROLE@),
        ("system"@, DEPLOY_TOOL_USAGE@),
        ("system"@, DEPLOY_TOOL_RULE@),
        ("system"@, DEPLOY_TOOL_SCHEMA@),
        ("user"@, deployment_prompt_spec(*context)),
    ]);
    r
}

/// The model a deployment uses: its id, or the error when the project has
/// none.
pub fn deployment_model(context: &ProjectDeploymentContext) -> (r: Result<i64, String>)
    ensures
        match r {
            Ok(id) => context.model_id == Some(id),
            Err(e) => context.model_id is None && e@ == "No model configured for project"@,
        },
{
    match context.model_id {
        Some(id) => Ok(id),
        None => Err("No model configured for project".to_string()),
    }
}

/// The address, key and name of a model, from the fields its description
/// holds; the first one missing gives the error.
pub fn model_endpoint(access_url: Option<String>, api_key: Option<String>, name: Option<String>) -> (r: Result<
    (String, String, String),
    String,
>)
    ensures
        match r {
            Ok((u, k, n)) => access_url == Some(u) && api_key == Some(k) && name == Some(n),
            Err(e) => {
                ||| access_url is None && e@ == "Model access_url not found"@
                ||| access_url is Some && api_key is None && e@ == "Model api_key not found"@
                ||| access_url is Some && api_key is Some && name is None && e@ == "Model name not found"@
            },
        },
{
    let u = match access_url {
        Some(u) => u,
        None => return Err("Model access_url not found".to_string()),
    };
    let k = match api_key {
        Some(k) => k,
        None => return Err("Model api_key not found".to_string()),
    };
    let n = match name {
        Some(n) => n,
        None => return Err("Model name not found".to_string()),
    };
    Ok((u, k, n))
}

/// How many times the tool list of a new container is asked for before the
/// deployment goes on without waiting.
pub const TOOL_LIST_ATTEMPTS: u32 = 60;

/// After a failed request for the tool list, counted in `failures`: whether
/// to wait and ask again.
pub fn retry_tool_list(failures: &mut u32) -> (again: bool)
    requires
        *old(failures) < TOOL_LIST_ATTEMPTS,
    ensures
        *final(failures) == *old(failures) + 1,
        again == (*final(failures) < TOOL_LIST_ATTEMPTS),
{
    *failures = *failures + 1;
    *failures < TOOL_LIST_ATTEMPTS
}

/// Takes one chunk of the model's streamed answer: its content is kept
/// unless it is empty or `[DONE]`; the answer ends once a chunk has a finish
/// reason.
pub fn collect_chunk(full: &mut String, content: &str, has_finish_reason: bool) -> (stop: bool)
    ensures
        final(full)@ == (if content@.len() > 0 && content@ != "[DONE]"@ {
            old(full)@ + content@
        } else {
            old(full)@
        }),
        stop == has_finish_reason,
{
    if !content.is_empty() && !crate::text::text_eq(content, "[DONE]") {
        full.append(content);
    }
    has_finish_reason
}

} // verus!
