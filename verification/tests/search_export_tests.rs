use std::collections::hash_map::DefaultHasher;
use std::hash::{Hash, Hasher};

use rust_saas::export::{
    content_hash, content_type, export_csv, export_markdown, hex_string, import_tally,
    parse_export_format, ExportDocument, ExportFormat, CSV_HEADER,
};
use rust_saas::export::{export_document_of, knowledge_graph_export, EntityRow, RelationRow};
use rust_saas::rerank::{diversify_results, query_terms, term_frequency};
use rust_saas::search::{
    effective_top_k, keyword_pattern, ordered_highlights, split_into_sentences, suggestion_limit,
    SuggestRequest,
};

fn doc(id: i64, title: &str, content: &str, project_id: Option<i64>, created_at: Option<&str>) -> ExportDocument {
    ExportDocument {
        id,
        title: title.to_string(),
        content: content.to_string(),
        project_id,
        created_at: created_at.map(|s| s.to_string()),
    }
}

#[test]
fn sentences() {
    assert_eq!(
        split_into_sentences("你好。 How are you? Fine;  ok"),
        vec!["你好。", "How are you?", "Fine;", "ok"]
    );
    assert_eq!(split_into_sentences(" .. "), vec![".", "."]);
    assert!(split_into_sentences("   ").is_empty());
}

#[test]
fn highlights_in_text_order() {
    let chosen = vec!["b".to_string(), "a".to_string(), "zz".to_string()];
    let r = ordered_highlights("a. x! b; a.", &chosen);
    assert_eq!(r, vec![("a".to_string(), 1), ("b".to_string(), 0), ("a".to_string(), 1)]);
    assert!(ordered_highlights("", &chosen).is_empty());
}

#[test]
fn search_defaults() {
    assert_eq!(keyword_pattern("rust"), "%rust%");
    assert_eq!(effective_top_k(Some(3), Some(9)), 3);
    assert_eq!(effective_top_k(None, Some(9)), 9);
    assert_eq!(effective_top_k(None, None), 5);
    let req = SuggestRequest { q: "x".to_string(), project_id: None, limit: None };
    assert_eq!(suggestion_limit(&req), 10);
    let req2 = SuggestRequest { q: "x".to_string(), project_id: Some(1), limit: Some(3) };
    assert_eq!(suggestion_limit(&req2), 3);
}

#[test]
fn terms_and_frequencies() {
    assert_eq!(query_terms("  rust  verus\tproof\n"), vec!["rust", "verus", "proof"]);
    assert!(query_terms(" \t ").is_empty());
    assert_eq!(term_frequency("ab", "ababab"), 3);
    assert_eq!(term_frequency("aa", "aaaa"), 2);
    assert_eq!(term_frequency("aa", "aaa"), 1);
    assert_eq!(term_frequency("x", "abc"), 0);
    assert_eq!(term_frequency("abc", "ab"), 0);
    // the empty term matches at every character boundary
    assert_eq!(term_frequency("", "abc"), 4);
    assert_eq!(term_frequency("", ""), 1);
    assert_eq!(term_frequency("", "é!"), 3);
}

#[test]
fn diversified_order() {
    let rs = vec![(1, Some(10)), (2, Some(10)), (3, Some(20)), (4, None), (5, Some(30))];
    assert_eq!(diversify_results(&rs, 3), vec![0, 2, 3, 1, 4]);
    // too few results, or a window below 2: unchanged
    assert_eq!(diversify_results(&rs, 5), vec![0, 1, 2, 3, 4]);
    assert_eq!(diversify_results(&rs, 1), vec![0, 1, 2, 3, 4]);
    // a repeated id is listed once
    let dup = vec![(1, Some(1)), (1, Some(1)), (2, Some(2)), (3, Some(3))];
    assert_eq!(diversify_results(&dup, 2), vec![0, 2, 3]);
}

#[test]
fn export_formats() {
    assert_eq!(parse_export_format(Some("md")), ExportFormat::Markdown);
    assert_eq!(parse_export_format(Some("markdown")), ExportFormat::Markdown);
    assert_eq!(parse_export_format(Some("csv")), ExportFormat::Csv);
    assert_eq!(parse_export_format(Some("CSV")), ExportFormat::Json);
    assert_eq!(parse_export_format(None), ExportFormat::Json);
    assert_eq!(content_type(ExportFormat::Json), "application/json");
    assert_eq!(content_type(ExportFormat::Markdown), "text/markdown");
    assert_eq!(content_type(ExportFormat::Csv), "text/csv");
}

#[test]
fn markdown_export() {
    let ds = vec![doc(1, "T", "body", None, Some("2024")), doc(2, "U", "x", None, None)];
    assert_eq!(
        export_markdown(&ds),
        "# T\n\n*创建时间: 2024*\n\nbody\n\n---\n\n# U\n\nx\n\n---\n\n"
    );
    assert_eq!(export_markdown(&[]), "");
}

#[test]
fn csv_export() {
    let ds = vec![doc(1, "say \"hi\"", "a\nb \"q\"", Some(7), Some("2024")), doc(2, "t", "c", None, None)];
    assert_eq!(
        export_csv(&ds),
        format!("{}1,\"say \"\"hi\"\"\",7,2024,\"a b \"\"q\"\"\"\n2,\"t\",0,,\"c\"\n", CSV_HEADER)
    );
    assert_eq!(export_csv(&[]), CSV_HEADER);
}

#[test]
fn import_tally_counts_every_document_once() {
    let outcomes = vec![Ok(11), Err("bad".to_string()), Ok(12), Err("worse".to_string())];
    let titles = vec!["a".to_string(), "b".to_string(), "c".to_string(), "d".to_string()];
    let r = import_tally(&outcomes, &titles);
    assert_eq!(r.total_count, 4);
    assert_eq!(r.success_count, 2);
    assert_eq!(r.failed_count, 2);
    assert_eq!(r.success_count + r.failed_count, r.total_count);
    assert_eq!(r.document_ids, vec![11, 12]);
    assert_eq!(r.errors.len(), 2);
    assert_eq!((r.errors[0].index, r.errors[0].title.as_str(), r.errors[0].error.as_str()), (1, "b", "bad"));
    assert_eq!(r.errors[1].index, 3);
    let empty = import_tally(&vec![], &vec![]);
    assert_eq!(empty.total_count, 0);
}

#[test]
fn hashes_in_hex() {
    assert_eq!(hex_string(0), "0");
    assert_eq!(hex_string(255), "ff");
    assert_eq!(hex_string(u64::MAX), "ffffffffffffffff");
    let mut h = DefaultHasher::new();
    "some content".hash(&mut h);
    assert_eq!(content_hash("some content"), format!("{:x}", h.finish()));
    assert_ne!(content_hash("some content"), content_hash("other content"));
}

#[test]
fn stored_documents_and_graph_export() {
    let d = export_document_of(3, &None, &Some("body".to_string()), Some(2), "2024-01-01 00:00:00".to_string());
    assert_eq!((d.id, d.title.as_str(), d.content.as_str(), d.project_id), (3, "", "body", Some(2)));
    assert_eq!(d.created_at, Some("2024-01-01 00:00:00".to_string()));
    let es = vec![
        EntityRow { id: 1, name: Some("Rust".to_string()), entity_type: None, description: Some("lang".to_string()) },
        EntityRow { id: 2, name: None, entity_type: Some("Technology".to_string()), description: None },
    ];
    let rs = vec![RelationRow {
        id: 9,
        source_entity_id: 1,
        target_entity_id: 2,
        relation_type: None,
        evidence_text: Some("text".to_string()),
    }];
    let g = knowledge_graph_export(&es, &rs);
    assert_eq!((g.entity_count, g.relation_count), (2, 1));
    assert_eq!(g.entities[0].name, "Rust");
    assert_eq!(g.entities[0].entity_type, "");
    assert_eq!(g.entities[1].name, "");
    assert_eq!(g.entities[1].entity_type, "Technology");
    assert_eq!(g.relations[0].relation_type, "");
    assert_eq!((g.relations[0].source_id, g.relations[0].target_id), (1, 2));
    assert_eq!(g.relations[0].evidence, Some("text".to_string()));
}
