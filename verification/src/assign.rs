//! Assigning a project's files to its containers: the instructions to the
//! model, reading its answer, and the assignments to store.
use vstd::prelude::*;

verus! {

/// The opening of the file assignment instructions, up to the container configurations.
pub const ASSIGN_PROMPT_HEAD: &'static str = "你是一个专业的代码部署助手，负责分析项目文件并将其分配到正确的容器中。\n\n## 任务说明\n\n请分析以下项目文件，根据文件内容和用途，将每个文件分配到一个或多个容器中。\n\n## 容器配置\n\n容器配置信息（JSON格式）：\n";

/// The heading of the file list.
pub const ASSIGN_PROMPT_FILES: &'static str = "\n\n## 文件列表\n\n项目文件列表（JSON格式）：\n";

/// The assignment rules, the output format and an example.
pub const ASSIGN_PROMPT_RULES: &'static str = "\n\n## 分配规则\n\n1. **共有代码（container_config_id = 0）**：如果文件是所有容器都需要的通用代码，如工具函数、配置文件、共享数据模型等，请分配到 container_config_id = 0。\n\n2. **专属代码**：如果文件只属于特定容器，请分配到对应的容器配置ID。\n\n3. **多容器归属**：一个文件可以同时属于多个容器（包括共有代码），例如用户模型可能同时被API服务和Worker服务使用。\n\n4. **配置文件**：如 package.json, requirements.txt 等通常属于共有代码或所有需要它们的容器。\n\n5. **入口文件**：如 main.py, server.js 等通常属于特定容器的专属代码。\n\n6. **测试文件**：通常属于所有相关容器或共有代码。\n\n## 输出格式\n\n请严格按照以下JSON格式输出，不要包含其他内容：\n\n{\n  \"assignments\": [\n    {\n      \"file_id\": <文件ID>,\n      \"file_path\": \"<文件完整路径>\",\n      \"container_config_ids\": [<容器配置ID列表，0表示共有代码>],\n      \"confidence_score\": <0-100的置信度分数>,\n      \"assignment_reason\": \"<分配原因说明>\"\n    }\n  ]\n}\n\n## 示例\n{\n  \"assignments\": [\n    {\n      \"file_id\": 1,\n      \"file_path\": \"src/common/utils.py\",\n      \"container_config_ids\": [0],\n      \"confidence_score\": 95,\n      \"assignment_reason\": \"通用工具函数，所有容器都需要\"\n    },\n    {\n      \"file_id\": 2,\n      \"file_path\": \"src/api/main.py\",\n      \"container_config_ids\": [1],\n      \"confidence_score\": 90,\n      \"assignment_reason\": \"API服务入口文件，专属api-server容器\"\n    },\n    {\n      \"file_id\": 3,\n      \"file_path\": \"src/models/user.py\",\n      \"container_config_ids\": [0, 1, 2],\n      \"confidence_score\": 85,\n      \"assignment_reason\": \"用户模型，api-server和worker容器都需要\"\n    }\n  ]\n}\n";

/// What the user asks of the model once the instructions are given.
pub const ASSIGN_REQUEST: &'static str = "请分析以上文件并进行容器分配。请严格按照指定的JSON格式输出结果，不要包含任何其他文字或解释。";

/// The instructions to assign files to containers, given the container
/// configurations and the files as JSON text.
pub open spec fn assignment_prompt_spec(configs_json: Seq<char>, files_json: Seq<char>) -> Seq<char> {
    ASSIGN_PROMPT_HEAD@ + configs_json + ASSIGN_PROMPT_FILES@ + files_json + ASSIGN_PROMPT_RULES@
}

/// The messages that ask the model to assign files to containers: the
/// instructions, then the request.
pub fn assignment_messages(configs_json: &str, files_json: &str) -> (r: Vec<(String, String)>)
    ensures
        r@.map_values(|m: (String, String)| (m.0@, m.1@)) == seq![
            ("system"@, assignment_prompt_spec(configs_json@, files_json@)),
            ("user"@, ASSIGN_REQUEST@),
        ],
{
    let mut p = String::new();
    p.append(ASSIGN_PROMPT_HEAD);
    p.append(configs_json);
    p.append(ASSIGN_PROMPT_FILES);
    p.append(files_json);
    p.append(ASSIGN_PROMPT_RULES);
    let r = vec![("system".to_string(), p), ("user".to_string(), ASSIGN_REQUEST.to_string())];
    assert(r@.map_values(|m: (String, String)| (m.0@, m.1@)) =~= seq![
        ("system"@, assignment_prompt_spec(configs_json@, files_json@)),
        ("user"@, ASSIGN_REQUEST@),
    ]);
    r
}

/// One element of the model's `assignments` array, as its JSON members give
/// it (the confidence score is read by the caller).
pub struct AssignmentItem {
    /// `file_id`, when an integer.
    pub file_id: Option<i64>,
    /// `file_path`, when a string.
    pub file_path: Option<String>,
    /// `container_config_ids`, when an array: each element, when an integer.
    pub container_config_ids: Option<Vec<Option<i64>>>,
    /// `assignment_reason`, when a string.
    pub assignment_reason: Option<String>,
}

/// A file and the containers it is assigned to.
pub struct FileAssignment {
    pub file_id: i64,
    pub file_path: String,
    pub container_config_ids: Vec<i64>,
    pub assignment_reason: String,
}

/// The integers of a list whose elements may be missing, in order.
pub open spec fn present_ids(v: Seq<Option<i64>>) -> Seq<i64>
    decreases v.len(),
{
    if v.len() == 0 {
        Seq::empty()
    } else {
        match v.last() {
            Some(x) => present_ids(v.drop_last()).push(x),
            None => present_ids(v.drop_last()),
        }
    }
}

/// The error for an element of the answer that lacks a member, in the order
/// the members are read; none when all are there.
pub open spec fn item_error(i: AssignmentItem) -> Option<Seq<char>> {
    if i.file_id is None {
        Some("Missing file_id in assignment"@)
    } else if i.file_path is None {
        Some("Missing file_path in assignment"@)
    } else if i.container_config_ids is None {
        Some("Missing container_config_ids in assignment"@)
    } else {
        None
    }
}

/// `a` is what an element of the answer gives: its file, path and integer
/// container ids, and its reason or an empty one.
pub open spec fn assignment_of(a: FileAssignment, i: AssignmentItem) -> bool {
    &&& i.file_id == Some(a.file_id)
    &&& i.file_path matches Some(p) && p@ == a.file_path@
    &&& i.container_config_ids matches Some(ids) && present_ids(ids@) == a.container_config_ids@
    &&& a.assignment_reason@ == match i.assignment_reason {
        Some(r) => r@,
        None => Seq::empty(),
    }
}

fn present_ids_exec(v: &Vec<Option<i64>>) -> (r: Vec<i64>)
    ensures
        r@ == present_ids(v@),
{
    let mut r: Vec<i64> = Vec::new();
    let mut i: usize = 0;
    while i < v.len()
        invariant
            0 <= i <= v.len(),
            r@ == present_ids(v@.take(i as int)),
        decreases v.len() - i,
    {
        proof {
            assert(v@.take(i + 1).drop_last() =~= v@.take(i as int));
        }
        match v[i] {
            Some(x) => r.push(x),
            None => {},
        }
        i = i + 1;
    }
    assert(v@.take(v.len() as int) =~= v@);
    r
}

/// The assignment an element of the model's answer gives, or the error for
/// the first member it lacks.
pub fn assignment_from_item(item: &AssignmentItem) -> (r: Result<FileAssignment, String>)
    ensures
        match r {
            Ok(a) => item_error(*item) is None && assignment_of(a, *item),
            Err(e) => item_error(*item) == Some(e@),
        },
{
    let file_id = match item.file_id {
        Some(f) => f,
        None => return Err("Missing file_id in assignment".to_string()),
    };
    let file_path = match &item.file_path {
        Some(p) => p.clone(),
        None => return Err("Missing file_path in assignment".to_string()),
    };
    let ids = match &item.container_config_ids {
        Some(ids) => present_ids_exec(ids),
        None => return Err("Missing container_config_ids in assignment".to_string()),
    };
    let reason = match &item.assignment_reason {
        Some(r) => r.clone(),
        None => String::new(),
    };
    Ok(FileAssignment { file_id, file_path, container_config_ids: ids, assignment_reason: reason })
}

/// The assignments of the model's answer, one per element in order; or the
/// error of the first element that lacks a member.
pub fn assignments_from_items(items: &Vec<AssignmentItem>) -> (r: Result<Vec<FileAssignment>, String>)
    ensures
        match r {
            Ok(v) => v@.len() == items@.len() && forall|k: int|
                0 <= k < items@.len() ==> item_error(items@[k]) is None && assignment_of(
                    #[trigger] v@[k],
                    items@[k],
                ),
            Err(e) => exists|k: int|
                0 <= k < items@.len() && item_error(#[trigger] items@[k]) == Some(e@) && forall|j: int|
                    0 <= j < k ==> item_error(items@[j]) is None,
        },
{
    let mut v: Vec<FileAssignment> = Vec::new();
    let mut i: usize = 0;
    while i < items.len()
        invariant
            0 <= i <= items.len(),
            v@.len() == i,
            forall|k: int| 0 <= k < i ==> item_error(#[trigger] items@[k]) is None,
            forall|k: int| 0 <= k < i ==> assignment_of(#[trigger] v@[k], items@[k]),
        decreases items.len() - i,
    {
        match assignment_from_item(&items[i]) {
            Ok(a) => {
                let ghost before = v@;
                v.push(a);
                assert forall|k: int| 0 <= k < i + 1 implies assignment_of(#[trigger] v@[k], items@[k]) by {
                    if k < i {
                        assert(v@[k] == before[k]);
                    }
                }
            },
            Err(e) => {
                assert(item_error(items@[i as int]) == Some(e@));
                return Err(e);
            },
        }
        i = i + 1;
    }
    Ok(v)
}

/// An assignment to store: one file in one container. `source` is the
/// position, in the list it was made from, of the assignment it comes from.
pub struct NewAssignment {
    pub project_id: i64,
    pub file_id: i64,
    pub container_config_id: i64,
    pub file_path: String,
    pub assigned_by: String,
    pub assignment_reason: Option<String>,
    pub source: usize,
}

/// `n` stores assignment `a` (at position `src`) for container `cid`.
pub open spec fn stores(n: NewAssignment, project_id: i64, a: FileAssignment, src: int, cid: i64) -> bool {
    &&& n.project_id == project_id
    &&& n.file_id == a.file_id
    &&& n.container_config_id == cid
    &&& n.file_path@ == a.file_path@
    &&& n.assigned_by@ == "llm"@
    &&& n.assignment_reason matches Some(r) && r@ == a.assignment_reason@
    &&& n.source == src
}

/// The pairs (position of the assignment, container id) stored for a list of
/// assignments: each kept assignment once per container, in order.
pub open spec fn stored_pairs(asg: Seq<FileAssignment>, only: Option<Seq<i64>>) -> Seq<(int, i64)>
    decreases asg.len(),
{
    if asg.len() == 0 {
        Seq::empty()
    } else {
        let rest = stored_pairs(asg.drop_last(), only);
        let a = asg.last();
        let kept = match only {
            Some(ids) => ids.contains(a.file_id),
            None => true,
        };
        if kept {
            rest + a.container_config_ids@.map_values(|c: i64| (asg.len() - 1, c))
        } else {
            rest
        }
    }
}

fn contains_id(ids: &Vec<i64>, x: i64) -> (r: bool)
    ensures
        r == ids@.contains(x),
{
    let mut i: usize = 0;
    while i < ids.len()
        invariant
            0 <= i <= ids.len(),
            forall|k: int| 0 <= k < i ==> ids@[k] != x,
        decreases ids.len() - i,
    {
        if ids[i] == x {
            assert(ids@[i as int] == x);
            return true;
        }
        i = i + 1;
    }
    false
}

/// The assignments to store for the model's answer: for each assignment
/// (only those of the files in `only`, when given), one per container it
/// names, assigned by `llm`, in order.
pub fn expand_assignments(project_id: i64, assignments: &Vec<FileAssignment>, only: Option<&Vec<i64>>) -> (r: Vec<
    NewAssignment,
>)
    ensures
        ({
            let pairs = stored_pairs(
                assignments@,
                match only {
                    Some(ids) => Some(ids@),
                    None => None,
                },
            );
            &&& r@.len() == pairs.len()
            &&& forall|k: int|
                0 <= k < r@.len() ==> 0 <= pairs[k].0 < assignments@.len() && stores(
                    #[trigger] r@[k],
                    project_id,
                    assignments@[pairs[k].0],
                    pairs[k].0,
                    pairs[k].1,
                )
        }),
{
    let ghost only_v = match only {
        Some(ids) => Some(ids@),
        None => None::<Seq<i64>>,
    };
    let mut r: Vec<NewAssignment> = Vec::new();
    let mut i: usize = 0;
    while i < assignments.len()
        invariant
            0 <= i <= assignments.len(),
            only_v == match only {
                Some(ids) => Some(ids@),
                None => None,
            },
            r@.len() == stored_pairs(assignments@.take(i as int), only_v).len(),
            forall|k: int|
                0 <= k < r@.len() ==> 0 <= (#[trigger] stored_pairs(assignments@.take(i as int), only_v)[k]).0
                    < i && stores(
                    r@[k],
                    project_id,
                    assignments@[stored_pairs(assignments@.take(i as int), only_v)[k].0],
                    stored_pairs(assignments@.take(i as int), only_v)[k].0,
                    stored_pairs(assignments@.take(i as int), only_v)[k].1,
                ),
        decreases assignments.len() - i,
    {
        proof {
            assert(assignments@.take(i + 1).drop_last() =~= assignments@.take(i as int));
            assert(assignments@.take(i + 1).last() == assignments@[i as int]);
        }
        let a = &assignments[i];
        let kept = match only {
            Some(ids) => contains_id(ids, a.file_id),
            None => true,
        };
        let ghost before = stored_pairs(assignments@.take(i as int), only_v);
        let ghost r0 = r@;
        if kept {
            let ghost added = a.container_config_ids@.map_values(|c: i64| (i as int, c));
            let mut j: usize = 0;
            while j < a.container_config_ids.len()
                invariant
                    0 <= j <= a.container_config_ids.len(),
                    a == &assignments@[i as int],
                    added == a.container_config_ids@.map_values(|c: i64| (i as int, c)),
                    r@.len() == r0.len() + j,
                    r0.len() == before.len(),
                    forall|k: int| 0 <= k < r0.len() ==> r@[k] == r0[k],
                    forall|k: int|
                        0 <= k < j ==> stores(
                            #[trigger] r@[r0.len() + k],
                            project_id,
                            *a,
                            i as int,
                            a.container_config_ids@[k],
                        ),
                decreases a.container_config_ids.len() - j,
            {
                r.push(
                    NewAssignment {
                        project_id,
                        file_id: a.file_id,
                        container_config_id: a.container_config_ids[j],
                        file_path: a.file_path.clone(),
                        assigned_by: "llm".to_string(),
                        assignment_reason: Some(a.assignment_reason.clone()),
                        source: i,
                    },
                );
                j = j + 1;
            }
            proof {
                let after = stored_pairs(assignments@.take(i + 1), only_v);
                assert(after == before + added);
                assert forall|k: int| 0 <= k < r@.len() implies 0 <= (#[trigger] after[k]).0 < i + 1 && stores(
                    r@[k],
                    project_id,
                    assignments@[after[k].0],
                    after[k].0,
                    after[k].1,
                ) by {
                    if k < r0.len() {
                        assert(after[k] == before[k]);
                    } else {
                        assert(after[k] == added[k - r0.len()]);
                        assert(stores(r@[r0.len() + (k - r0.len())], project_id, *a, i as int, a.container_config_ids@[k - r0.len()]));
                    }
                }
            }
        } else {
            assert(stored_pairs(assignments@.take(i + 1), only_v) == before);
        }
        i = i + 1;
    }
    assert(assignments@.take(assignments.len() as int) =~= assignments@);
    r
}

/// The assignments to store for a file placed by hand: one per container, in
/// order, assigned by `manual`.
pub fn manual_assignments(
    project_id: i64,
    file_id: i64,
    file_path: &str,
    container_config_ids: &Vec<i64>,
    assignment_reason: Option<String>,
) -> (r: Vec<NewAssignment>)
    ensures
        r@.len() == container_config_ids@.len(),
        forall|k: int|
            0 <= k < r@.len() ==> {
                let n = #[trigger] r@[k];
                &&& n.project_id == project_id
                &&& n.file_id == file_id
                &&& n.container_config_id == container_config_ids@[k]
                &&& n.file_path@ == file_path@
                &&& n.assigned_by@ == "manual"@
                &&& n.assignment_reason == assignment_reason
                &&& n.source == 0
            },
{
    let mut r: Vec<NewAssignment> = Vec::new();
    let mut i: usize = 0;
    while i < container_config_ids.len()
        invariant
            0 <= i <= container_config_ids.len(),
            r@.len() == i,
            forall|k: int|
                0 <= k < i ==> {
                    let n = #[trigger] r@[k];
                    &&& n.project_id == project_id
                    &&& n.file_id == file_id
                    &&& n.container_config_id == container_config_ids@[k]
                    &&& n.file_path@ == file_path@
                    &&& n.assigned_by@ == "manual"@
                    &&& n.assignment_reason == assignment_reason
                    &&& n.source == 0
                },
        decreases container_config_ids.len() - i,
    {
        let reason = match &assignment_reason {
            Some(x) => Some(x.clone()),
            None => None,
        };
        r.push(
            NewAssignment {
                project_id,
                file_id,
                container_config_id: container_config_ids[i],
                file_path: file_path.to_string(),
                assigned_by: "manual".to_string(),
                assignment_reason: reason,
                source: 0,
            },
        );
        i = i + 1;
    }
    r
}

/// Whether a stored assignment to container `config_id` is dropped when a
/// file is placed by hand in `requested`: when that container is not among
/// them.
pub fn is_stale_assignment(config_id: i64, requested: &Vec<i64>) -> (r: bool)
    ensures
        r == !requested@.contains(config_id),
{
    !contains_id(requested, config_id)
}

/// Why a request about a project is refused.
#[derive(PartialEq, Eq, Structural, Clone, Copy, Debug)]
pub enum AccessError {
    /// The project does not exist.
    NotFound,
    /// The project belongs to another user.
    Unauthorized,
}

/// Whether a user may act on a project: the project must exist and be theirs.
pub fn check_project_access(owner: Option<i64>, user_id: i64) -> (r: Result<(), AccessError>)
    ensures
        match owner {
            None => r == Err::<(), AccessError>(AccessError::NotFound),
            Some(o) => if o == user_id {
                r is Ok
            } else {
                r == Err::<(), AccessError>(AccessError::Unauthorized)
            },
        },
{
    match owner {
        None => Err(AccessError::NotFound),
        Some(o) => if o == user_id {
            Ok(())
        } else {
            Err(AccessError::Unauthorized)
        },
    }
}

/// Whether a file placed by hand belongs to the project it is placed in.
pub fn check_file_in_project(file_project_id: i64, project_id: i64) -> (r: Result<(), String>)
    ensures
        file_project_id == project_id <==> r is Ok,
        r matches Err(e) ==> e@ == "File does not belong to project"@,
{
    if file_project_id != project_id {
        Err("File does not belong to project".to_string())
    } else {
        Ok(())
    }
}

/// What a request to assign a project's files does.
pub enum AssignPlan {
    /// Answer with the assignments already stored.
    ReturnExisting,
    /// Refuse, with this reason.
    Refuse(String),
    /// Ask the model with this id.
    Ask(i64),
}

/// The plan of an assignment request: the stored assignments when every
/// file is assigned and no new assignment is forced; else a refusal when
/// the project has no container configuration, no file or no model; else
/// the model to ask.
pub fn plan_assignment(
    unassigned_files: usize,
    force: Option<bool>,
    container_configs: usize,
    files: usize,
    model_id: Option<i64>,
) -> (r: AssignPlan)
    ensures
        ({
            let forced = force == Some(true);
            if unassigned_files == 0 && !forced {
                r is ReturnExisting
            } else if container_configs == 0 {
                r matches AssignPlan::Refuse(e) && e@ == "No container configs found for project"@
            } else if files == 0 {
                r matches AssignPlan::Refuse(e) && e@ == "No files found for project"@
            } else {
                match model_id {
                    Some(m) => r == AssignPlan::Ask(m),
                    None => r matches AssignPlan::Refuse(e) && e@ == "Project has no model configured"@,
                }
            }
        }),
{
    let forced = match force {
        Some(f) => f,
        None => false,
    };
    if unassigned_files == 0 && !forced {
        return AssignPlan::ReturnExisting;
    }
    if container_configs == 0 {
        return AssignPlan::Refuse("No container configs found for project".to_string());
    }
    if files == 0 {
        return AssignPlan::Refuse("No files found for project".to_string());
    }
    match model_id {
        Some(m) => AssignPlan::Ask(m),
        None => AssignPlan::Refuse("Project has no model configured".to_string()),
    }
}

/// A stored assignment, answered as an assignment of the file to its one
/// container, with its reason or an empty one.
pub fn stored_as_result(file_id: i64, file_path: String, container_config_id: i64, assignment_reason: Option<String>) -> (r:
    FileAssignment)
    ensures
        r.file_id == file_id,
        r.file_path@ == file_path@,
        r.container_config_ids@ == seq![container_config_id],
        r.assignment_reason@ == match assignment_reason {
            Some(x) => x@,
            None => Seq::empty(),
        },
{
    let mut ids: Vec<i64> = Vec::new();
    ids.push(container_config_id);
    assert(ids@ =~= seq![container_config_id]);
    FileAssignment {
        file_id,
        file_path,
        container_config_ids: ids,
        assignment_reason: match assignment_reason {
            Some(x) => x,
            None => String::new(),
        },
    }
}

} // verus!
