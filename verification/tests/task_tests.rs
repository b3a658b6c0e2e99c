use rust_saas::chunking::TextChunk;
use rust_saas::tasks::{
    batch_document, batch_progress_message, chunk_delete_filter, chunk_params, chunk_rows,
    dispatch_task, document_source, document_text, get_collection_name, project_ids_for,
    task_outcome, unknown_task_message, vector_delete_filter, BatchItem, DocumentSource,
    DocumentTaskPayload, TaskHandler, TaskStatus, TaskType,
};

#[test]
fn task_type_names_round_trip() {
    for t in [
        TaskType::DocumentProcess,
        TaskType::DocumentReindex,
        TaskType::DocumentDistill,
        TaskType::BatchProcess,
    ] {
        assert_eq!(TaskType::from_name(t.as_str()), t);
    }
    assert_eq!(TaskType::BatchProcess.as_str(), "batch_process");
    assert_eq!(TaskType::from_name("nonsense"), TaskType::DocumentProcess);
}

#[test]
fn task_status_names_round_trip() {
    for s in [
        TaskStatus::Pending,
        TaskStatus::Processing,
        TaskStatus::Completed,
        TaskStatus::Failed,
        TaskStatus::Cancelled,
    ] {
        assert_eq!(TaskStatus::from_name(s.as_str()), s);
    }
    assert_eq!(TaskStatus::Cancelled.as_str(), "cancelled");
    assert_eq!(TaskStatus::from_name("??"), TaskStatus::Pending);
    assert!(TaskStatus::Processing.sets_started_at());
    assert!(!TaskStatus::Completed.sets_started_at());
    assert!(TaskStatus::Completed.sets_completed_at());
    assert!(TaskStatus::Failed.sets_completed_at());
    assert!(!TaskStatus::Pending.sets_completed_at());
}

#[test]
fn dispatching() {
    assert_eq!(dispatch_task("document_process"), TaskHandler::Process);
    assert_eq!(dispatch_task("document_reindex"), TaskHandler::Reindex);
    assert_eq!(dispatch_task("document_distill"), TaskHandler::Distill);
    assert_eq!(dispatch_task("batch_process"), TaskHandler::Batch);
    assert_eq!(dispatch_task("other"), TaskHandler::Unknown);
    assert_eq!(unknown_task_message("other"), "Unknown task type: other");
}

#[test]
fn outcomes() {
    let ok = task_outcome(Ok(()));
    assert_eq!(ok.status, TaskStatus::Completed);
    assert_eq!(ok.progress, Some(100));
    assert!(ok.message.is_none());
    let err = task_outcome(Err("boom".to_string()));
    assert_eq!(err.status, TaskStatus::Failed);
    assert_eq!(err.progress, None);
    assert_eq!(err.message, Some("boom".to_string()));
}

#[test]
fn collection_names() {
    assert_eq!(get_collection_name("default", Some(7)), "project_7");
    assert_eq!(get_collection_name("default", None), "default");
    assert_eq!(get_collection_name("kb", Some(7)), "kb_project_7");
    assert_eq!(get_collection_name("kb", None), "kb_default");
}

#[test]
fn delete_filters() {
    assert_eq!(chunk_delete_filter(&[1, 22, -3]), "chunk_id in [1,22,-3]");
    assert_eq!(chunk_delete_filter(&[]), "chunk_id in []");
    assert_eq!(vector_delete_filter(&[]), None);
    assert_eq!(vector_delete_filter(&[5]), Some("chunk_id in [5]".to_string()));
}

#[test]
fn document_sources() {
    let mut p = DocumentTaskPayload {
        document_id: Some(12),
        topic: Some("t".to_string()),
        project_id: Some(3),
        source_type: None,
        source_url: None,
        file_path: None,
        file_type: Some("md".to_string()),
        content: None,
    };
    assert!(matches!(document_source(&p), DocumentSource::Existing(12)));
    p.document_id = None;
    match document_source(&p) {
        DocumentSource::Create(d) => {
            assert_eq!(d.project_id, Some(3));
            assert_eq!(d.topic, Some("t".to_string()));
            assert_eq!(d.content, Some(String::new()));
            assert_eq!(d.file_type, Some("md".to_string()));
            assert_eq!(d.version, 1);
            assert_eq!(d.chunk_count, 0);
        }
        _ => panic!("expected a new document"),
    }
}

#[test]
fn document_texts() {
    assert_eq!(document_text(Some("abc".to_string())), Ok("abc".to_string()));
    assert_eq!(document_text(Some(String::new())), Err("Document content is empty".to_string()));
    assert_eq!(document_text(None), Err("Document content is empty".to_string()));
}

#[test]
fn chunking_parameters_and_rows() {
    assert_eq!(chunk_params(None), (512, 50));
    assert_eq!(chunk_params(Some((100, 10))), (100, 10));
    let chunks = vec![
        TextChunk { content: "a".to_string(), start_pos: 0, end_pos: 1 },
        TextChunk { content: "b".to_string(), start_pos: 1, end_pos: 2 },
    ];
    let rows = chunk_rows(9, &chunks);
    assert_eq!(rows.len(), 2);
    assert_eq!(rows[1].document_id, 9);
    assert_eq!(rows[1].chunk_index, 1);
    assert_eq!(rows[1].chunk_text, Some("b".to_string()));
    assert_eq!(rows[0].embedding_status, Some("done".to_string()));
}

#[test]
fn batch_items() {
    let item = BatchItem { topic: None, content: Some("text".to_string()), project_id: Some(1) };
    let d = batch_document(&item).unwrap();
    assert_eq!(d.content, Some("text".to_string()));
    assert_eq!(d.project_id, Some(1));
    assert!(batch_document(&BatchItem { topic: None, content: Some(String::new()), project_id: None }).is_none());
    assert!(batch_document(&BatchItem { topic: None, content: None, project_id: None }).is_none());
    assert_eq!(batch_progress_message(3, 10), "Processed 3/10");
    assert_eq!(project_ids_for(Some(4), 3), vec![Some(4), Some(4), Some(4)]);
    assert!(project_ids_for(None, 0).is_empty());
}
