use rust_saas::assign::{
    assignment_from_item, assignment_messages, assignments_from_items, check_file_in_project,
    check_project_access, expand_assignments, is_stale_assignment, manual_assignments,
    plan_assignment, stored_as_result, AccessError, AssignPlan, AssignmentItem, FileAssignment,
    ASSIGN_PROMPT_FILES, ASSIGN_PROMPT_HEAD, ASSIGN_PROMPT_RULES, ASSIGN_REQUEST,
};

fn item(file_id: Option<i64>, path: Option<&str>, ids: Option<Vec<Option<i64>>>) -> AssignmentItem {
    AssignmentItem {
        file_id,
        file_path: path.map(|s| s.to_string()),
        container_config_ids: ids,
        assignment_reason: None,
    }
}

fn assignment(file_id: i64, ids: Vec<i64>) -> FileAssignment {
    FileAssignment {
        file_id,
        file_path: format!("f{}", file_id),
        container_config_ids: ids,
        assignment_reason: "why".to_string(),
    }
}

#[test]
fn messages_to_the_model() {
    let ms = assignment_messages("[c]", "[f]");
    assert_eq!(ms.len(), 2);
    assert_eq!(ms[0].0, "system");
    assert_eq!(ms[0].1, format!("{}[c]{}[f]{}", ASSIGN_PROMPT_HEAD, ASSIGN_PROMPT_FILES, ASSIGN_PROMPT_RULES));
    assert_eq!(ms[1], ("user".to_string(), ASSIGN_REQUEST.to_string()));
}

#[test]
fn items_become_assignments() {
    let mut it = item(Some(3), Some("src/a.py"), Some(vec![Some(0), None, Some(2)]));
    it.assignment_reason = Some("shared".to_string());
    let a = assignment_from_item(&it).unwrap();
    assert_eq!(a.file_id, 3);
    assert_eq!(a.file_path, "src/a.py");
    assert_eq!(a.container_config_ids, vec![0, 2]);
    assert_eq!(a.assignment_reason, "shared");
    let b = assignment_from_item(&item(Some(4), Some("b"), Some(vec![]))).unwrap();
    assert_eq!(b.assignment_reason, "");
}

#[test]
fn missing_members_are_errors() {
    let e = |i: AssignmentItem| assignment_from_item(&i).err().unwrap();
    assert_eq!(e(item(None, None, None)), "Missing file_id in assignment");
    assert_eq!(e(item(Some(1), None, None)), "Missing file_path in assignment");
    assert_eq!(e(item(Some(1), Some("p"), None)), "Missing container_config_ids in assignment");
    let all = vec![item(Some(1), Some("p"), Some(vec![])), item(Some(2), None, None), item(None, None, None)];
    assert_eq!(assignments_from_items(&all).err().unwrap(), "Missing file_path in assignment");
    let good = vec![item(Some(1), Some("p"), Some(vec![Some(5)]))];
    assert_eq!(assignments_from_items(&good).unwrap().len(), 1);
}

#[test]
fn expansion_per_container() {
    let asg = vec![assignment(1, vec![0, 2]), assignment(2, vec![]), assignment(3, vec![7])];
    let all = expand_assignments(9, &asg, None);
    let pairs: Vec<(i64, i64, usize)> = all.iter().map(|n| (n.file_id, n.container_config_id, n.source)).collect();
    assert_eq!(pairs, vec![(1, 0, 0), (1, 2, 0), (3, 7, 2)]);
    assert!(all.iter().all(|n| n.project_id == 9 && n.assigned_by == "llm"));
    assert_eq!(all[0].assignment_reason, Some("why".to_string()));
    let only = vec![3];
    let some = expand_assignments(9, &asg, Some(&only));
    assert_eq!(some.len(), 1);
    assert_eq!(some[0].file_id, 3);
}

#[test]
fn manual_placement() {
    let ms = manual_assignments(9, 4, "x.rs", &vec![1, 2], None);
    assert_eq!(ms.len(), 2);
    assert_eq!(ms[1].container_config_id, 2);
    assert_eq!(ms[0].assigned_by, "manual");
    assert_eq!(ms[0].file_path, "x.rs");
    assert!(is_stale_assignment(3, &vec![1, 2]));
    assert!(!is_stale_assignment(2, &vec![1, 2]));
}

#[test]
fn access_checks() {
    assert_eq!(check_project_access(None, 1), Err(AccessError::NotFound));
    assert_eq!(check_project_access(Some(2), 1), Err(AccessError::Unauthorized));
    assert_eq!(check_project_access(Some(1), 1), Ok(()));
    assert_eq!(check_file_in_project(1, 1), Ok(()));
    assert_eq!(check_file_in_project(1, 2), Err("File does not belong to project".to_string()));
}

#[test]
fn assignment_plans() {
    assert!(matches!(plan_assignment(0, None, 0, 0, None), AssignPlan::ReturnExisting));
    assert!(matches!(plan_assignment(0, Some(false), 1, 1, Some(5)), AssignPlan::ReturnExisting));
    assert!(matches!(plan_assignment(0, Some(true), 1, 1, Some(5)), AssignPlan::Ask(5)));
    match plan_assignment(2, None, 0, 1, Some(5)) {
        AssignPlan::Refuse(e) => assert_eq!(e, "No container configs found for project"),
        _ => panic!(),
    }
    match plan_assignment(2, None, 1, 0, Some(5)) {
        AssignPlan::Refuse(e) => assert_eq!(e, "No files found for project"),
        _ => panic!(),
    }
    match plan_assignment(2, None, 1, 1, None) {
        AssignPlan::Refuse(e) => assert_eq!(e, "Project has no model configured"),
        _ => panic!(),
    }
    let s = stored_as_result(1, "p".to_string(), 4, None);
    assert_eq!(s.container_config_ids, vec![4]);
    assert_eq!(s.assignment_reason, "");
}
