//! Importing and exporting documents: the formats, the text of Markdown and
//! CSV exports, and the tally of an import.
use vstd::prelude::*;
use crate::text::{chars_of, i64_string, int_text, string_of};

verus! {

/// The format of an export.
#[derive(PartialEq, Eq, Structural, Clone, Copy, Debug)]
pub enum ExportFormat {
    Json,
    Markdown,
    Csv,
}

/// The format a query names: `markdown` or `md`, `csv`, and JSON otherwise.
pub open spec fn format_of(name: Option<Seq<char>>) -> ExportFormat {
    match name {
        Some(n) => if n == "markdown"@ || n == "md"@ {
            ExportFormat::Markdown
        } else if n == "csv"@ {
            ExportFormat::Csv
        } else {
            ExportFormat::Json
        },
        None => ExportFormat::Json,
    }
}

/// The format an export query asks for.
pub fn parse_export_format(name: Option<&str>) -> (r: ExportFormat)
    ensures
        r == format_of(crate::flow::opt_str(name)),
{
    match name {
        Some(n) => if crate::text::text_eq(n, "markdown") || crate::text::text_eq(n, "md") {
            ExportFormat::Markdown
        } else if crate::text::text_eq(n, "csv") {
            ExportFormat::Csv
        } else {
            ExportFormat::Json
        },
        None => ExportFormat::Json,
    }
}

/// The content type of an export.
pub fn content_type(format: ExportFormat) -> (r: &'static str)
    ensures
        r@ == match format {
            ExportFormat::Json => "application/json"@,
            ExportFormat::Markdown => "text/markdown"@,
            ExportFormat::Csv => "text/csv"@,
        },
{
    match format {
        ExportFormat::Json => "application/json",
        ExportFormat::Markdown => "text/markdown",
        ExportFormat::Csv => "text/csv",
    }
}

/// A query for an export.
pub struct ExportQuery {
    pub project_id: Option<i64>,
    pub format: Option<String>,
}

/// The answer to an export.
pub struct ExportResponse {
    pub code: i32,
    pub message: String,
    pub content: Option<String>,
    pub format: Option<String>,
    pub document_count: Option<usize>,
}

/// A document as it is exported.
pub struct ExportDocument {
    pub id: i64,
    pub title: String,
    pub content: String,
    pub project_id: Option<i64>,
    pub created_at: Option<String>,
}

/// The Markdown of one document: its title as a heading, its creation time
/// when known, its content, and a rule.
pub open spec fn markdown_of(d: ExportDocument) -> Seq<char> {
    "# "@ + d.title@ + "\n\n"@ + (match d.created_at {
        Some(c) => "*创建时间: "@ + c@ + "*\n\n"@,
        None => Seq::empty(),
    }) + d.content@ + "\n\n---\n\n"@
}

/// The Markdown of a list of documents, one after the other.
pub open spec fn markdown_spec(ds: Seq<ExportDocument>) -> Seq<char>
    decreases ds.len(),
{
    if ds.len() == 0 {
        Seq::empty()
    } else {
        markdown_spec(ds.drop_last()) + markdown_of(ds.last())
    }
}

/// The documents as Markdown.
pub fn export_markdown(documents: &[ExportDocument]) -> (r: String)
    ensures
        r@ == markdown_spec(documents@),
{
    let mut md = String::new();
    let mut i: usize = 0;
    while i < documents.len()
        invariant
            0 <= i <= documents.len(),
            md@ == markdown_spec(documents@.take(i as int)),
        decreases documents.len() - i,
    {
        proof {
            assert(documents@.take(i + 1).drop_last() =~= documents@.take(i as int));
        }
        let d = &documents[i];
        md.append("# ");
        md.append(d.title.as_str());
        md.append("\n\n");
        match &d.created_at {
            Some(c) => {
                md.append("*创建时间: ");
                md.append(c.as_str());
                md.append("*\n\n");
            },
            None => {},
        }
        md.append(d.content.as_str());
        md.append("\n\n---\n\n");
        assert(md@ =~= markdown_spec(documents@.take(i + 1)));
        i = i + 1;
    }
    assert(documents@.take(documents.len() as int) =~= documents@);
    md
}

/// `s` with each double quote doubled (`replace('"', "\"\"")`).
pub open spec fn double_quotes(s: Seq<char>) -> Seq<char>
    decreases s.len(),
{
    if s.len() == 0 {
        s
    } else if s.last() == '"' {
        double_quotes(s.drop_last()) + seq!['"', '"']
    } else {
        double_quotes(s.drop_last()).push(s.last())
    }
}

/// `s` with each line feed made a space.
pub open spec fn flatten_lines(s: Seq<char>) -> Seq<char> {
    s.map_values(|c: char| if c == '\n' { ' ' } else { c })
}

/// The CSV row of one document: id, quoted title, project (0 when none),
/// creation time (empty when unknown), and quoted content on one line.
pub open spec fn csv_row(d: ExportDocument) -> Seq<char> {
    int_text(d.id as int) + ",\""@ + double_quotes(d.title@) + "\","@ + int_text(
        (match d.project_id {
            Some(p) => p,
            None => 0,
        }) as int,
    ) + ","@ + (match d.created_at {
        Some(c) => c@,
        None => Seq::empty(),
    }) + ",\""@ + flatten_lines(double_quotes(d.content@)) + "\"\n"@
}

/// The CSV of a list of documents, after the header.
pub open spec fn csv_rows(ds: Seq<ExportDocument>) -> Seq<char>
    decreases ds.len(),
{
    if ds.len() == 0 {
        Seq::empty()
    } else {
        csv_rows(ds.drop_last()) + csv_row(ds.last())
    }
}

/// The header of a CSV export.
pub const CSV_HEADER: &'static str = "id,title,project_id,created_at,content\n";

fn append_csv_field(out: &mut String, s: &str, flatten: bool)
    ensures
        final(out)@ == old(out)@ + (if flatten {
            flatten_lines(double_quotes(s@))
        } else {
            double_quotes(s@)
        }),
{
    let cs = chars_of(s);
    let ghost start = out@;
    let mut i: usize = 0;
    while i < cs.len()
        invariant
            0 <= i <= cs.len(),
            cs@ == s@,
            out@ == start + (if flatten {
                flatten_lines(double_quotes(cs@.take(i as int)))
            } else {
                double_quotes(cs@.take(i as int))
            }),
        decreases cs.len() - i,
    {
        proof {
            assert(cs@.take(i + 1).drop_last() =~= cs@.take(i as int));
        }
        let c = cs[i];
        if c == '"' {
            crate::text::push_char(out, '"');
            crate::text::push_char(out, '"');
        } else if flatten && c == '\n' {
            crate::text::push_char(out, ' ');
        } else {
            crate::text::push_char(out, c);
        }
        proof {
            let prev = double_quotes(cs@.take(i as int));
            let next = double_quotes(cs@.take(i + 1));
            if c == '"' {
                assert(next == prev + seq!['"', '"']);
            } else {
                assert(next == prev.push(c));
            }
            if flatten {
                assert(flatten_lines(next) =~= flatten_lines(prev) + flatten_lines(next.subrange(
                    prev.len() as int,
                    next.len() as int,
                )));
                assert(next.subrange(prev.len() as int, next.len() as int) =~= if c == '"' {
                    seq!['"', '"']
                } else {
                    seq![c]
                });
            }
            assert(out@ =~= start + (if flatten {
                flatten_lines(next)
            } else {
                next
            }));
        }
        i = i + 1;
    }
    assert(cs@.take(cs.len() as int) =~= cs@);
}

/// Appends the CSV row of one document.
fn append_csv_row(csv: &mut String, d: &ExportDocument)
    ensures
        final(csv)@ == old(csv)@ + csv_row(*d),
{
    let ghost start = csv@;
    let id = i64_string(d.id);
    csv.append(id.as_str());
    csv.append(",\"");
    append_csv_field(csv, d.title.as_str(), false);
    csv.append("\",");
    let p = i64_string(
        match d.project_id {
            Some(p) => p,
            None => 0,
        },
    );
    csv.append(p.as_str());
    csv.append(",");
    match &d.created_at {
        Some(c) => csv.append(c.as_str()),
        None => {},
    }
    csv.append(",\"");
    append_csv_field(csv, d.content.as_str(), true);
    csv.append("\"\n");
    assert(csv@ =~= start + csv_row(*d));
}

/// The documents as CSV: the header, then one row per document.
pub fn export_csv(documents: &[ExportDocument]) -> (r: String)
    ensures
        r@ == CSV_HEADER@ + csv_rows(documents@),
{
    let mut csv = CSV_HEADER.to_string();
    let mut i: usize = 0;
    while i < documents.len()
        invariant
            0 <= i <= documents.len(),
            csv@ == CSV_HEADER@ + csv_rows(documents@.take(i as int)),
        decreases documents.len() - i,
    {
        proof {
            assert(documents@.take(i + 1).drop_last() =~= documents@.take(i as int));
        }
        append_csv_row(&mut csv, &documents[i]);
        assert(csv@ =~= CSV_HEADER@ + csv_rows(documents@.take(i + 1)));
        i = i + 1;
    }
    assert(documents@.take(documents.len() as int) =~= documents@);
    csv
}

fn text_or_empty(o: &Option<String>) -> (r: String)
    ensures
        r@ == match o {
            Some(s) => s@,
            None => Seq::<char>::empty(),
        },
{
    match o {
        Some(s) => s.clone(),
        None => String::new(),
    }
}

/// A stored document as it is exported: a missing title or content is empty,
/// and its creation time is given.
pub fn export_document_of(
    id: i64,
    title: &Option<String>,
    content: &Option<String>,
    project_id: Option<i64>,
    created_at: String,
) -> (d: ExportDocument)
    ensures
        d.id == id,
        d.title@ == match title {
            Some(t) => t@,
            None => Seq::<char>::empty(),
        },
        d.content@ == match content {
            Some(c) => c@,
            None => Seq::<char>::empty(),
        },
        d.project_id == project_id,
        d.created_at matches Some(c) && c@ == created_at@,
{
    ExportDocument {
        id,
        title: text_or_empty(title),
        content: text_or_empty(content),
        project_id,
        created_at: Some(created_at),
    }
}

/// A stored entity of the knowledge graph, as far as the export reads it.
pub struct EntityRow {
    pub id: i64,
    pub name: Option<String>,
    pub entity_type: Option<String>,
    pub description: Option<String>,
}

/// A stored relation of the knowledge graph, as far as the export reads it.
pub struct RelationRow {
    pub id: i64,
    pub source_entity_id: i64,
    pub target_entity_id: i64,
    pub relation_type: Option<String>,
    pub evidence_text: Option<String>,
}

/// An entity as it is exported.
pub struct ExportEntity {
    pub id: i64,
    pub name: String,
    pub entity_type: String,
    pub description: Option<String>,
}

/// A relation as it is exported.
pub struct ExportRelation {
    pub id: i64,
    pub source_id: i64,
    pub target_id: i64,
    pub relation_type: String,
    pub evidence: Option<String>,
}

/// The export of a knowledge graph.
pub struct KnowledgeGraphExport {
    pub entities: Vec<ExportEntity>,
    pub relations: Vec<ExportRelation>,
    pub entity_count: usize,
    pub relation_count: usize,
}

/// `e` is the export of entity row `r`: a missing name or type is empty.
pub open spec fn exports_entity(e: ExportEntity, r: EntityRow) -> bool {
    &&& e.id == r.id
    &&& e.name@ == match r.name {
        Some(n) => n@,
        None => Seq::<char>::empty(),
    }
    &&& e.entity_type@ == match r.entity_type {
        Some(t) => t@,
        None => Seq::<char>::empty(),
    }
    &&& e.description == r.description
}

/// `e` is the export of relation row `r`: a missing type is empty.
pub open spec fn exports_relation(e: ExportRelation, r: RelationRow) -> bool {
    &&& e.id == r.id
    &&& e.source_id == r.source_entity_id
    &&& e.target_id == r.target_entity_id
    &&& e.relation_type@ == match r.relation_type {
        Some(t) => t@,
        None => Seq::<char>::empty(),
    }
    &&& e.evidence == r.evidence_text
}

/// The export of a knowledge graph: each entity and each relation in order,
/// with their numbers.
pub fn knowledge_graph_export(entities: &Vec<EntityRow>, relations: &Vec<RelationRow>) -> (g: KnowledgeGraphExport)
    ensures
        g.entities@.len() == entities@.len(),
        g.relations@.len() == relations@.len(),
        forall|k: int| 0 <= k < entities@.len() ==> exports_entity(#[trigger] g.entities@[k], entities@[k]),
        forall|k: int| 0 <= k < relations@.len() ==> exports_relation(#[trigger] g.relations@[k], relations@[k]),
        g.entity_count == entities@.len(),
        g.relation_count == relations@.len(),
{
    let mut es: Vec<ExportEntity> = Vec::new();
    let mut i: usize = 0;
    while i < entities.len()
        invariant
            0 <= i <= entities.len(),
            es@.len() == i,
            forall|k: int| 0 <= k < i ==> exports_entity(#[trigger] es@[k], entities@[k]),
        decreases entities.len() - i,
    {
        let r = &entities[i];
        es.push(
            ExportEntity {
                id: r.id,
                name: text_or_empty(&r.name),
                entity_type: text_or_empty(&r.entity_type),
                description: r.description.clone(),
            },
        );
        i = i + 1;
    }
    let mut rs: Vec<ExportRelation> = Vec::new();
    let mut j: usize = 0;
    while j < relations.len()
        invariant
            0 <= j <= relations.len(),
            rs@.len() == j,
            forall|k: int| 0 <= k < j ==> exports_relation(#[trigger] rs@[k], relations@[k]),
        decreases relations.len() - j,
    {
        let r = &relations[j];
        rs.push(
            ExportRelation {
                id: r.id,
                source_id: r.source_entity_id,
                target_id: r.target_entity_id,
                relation_type: text_or_empty(&r.relation_type),
                evidence: r.evidence_text.clone(),
            },
        );
        j = j + 1;
    }
    let entity_count = es.len();
    let relation_count = rs.len();
    KnowledgeGraphExport { entities: es, relations: rs, entity_count, relation_count }
}

/// A document that failed to import: its position, title and the reason.
pub struct ImportError {
    pub index: usize,
    pub title: String,
    pub error: String,
}

/// What an import gave.
pub struct ImportResult {
    pub success_count: usize,
    pub failed_count: usize,
    pub total_count: usize,
    pub errors: Vec<ImportError>,
    pub document_ids: Vec<i64>,
}

/// The ids of the documents that were stored, in order.
pub open spec fn stored_ids(outcomes: Seq<Result<i64, String>>) -> Seq<i64>
    decreases outcomes.len(),
{
    if outcomes.len() == 0 {
        Seq::empty()
    } else {
        match outcomes.last() {
            Ok(id) => stored_ids(outcomes.drop_last()).push(id),
            Err(_) => stored_ids(outcomes.drop_last()),
        }
    }
}

/// The positions of the documents that failed, in order.
pub open spec fn failed_positions(outcomes: Seq<Result<i64, String>>) -> Seq<int>
    decreases outcomes.len(),
{
    if outcomes.len() == 0 {
        Seq::empty()
    } else {
        match outcomes.last() {
            Ok(_) => failed_positions(outcomes.drop_last()),
            Err(_) => failed_positions(outcomes.drop_last()).push(outcomes.len() - 1),
        }
    }
}

proof fn lemma_tally_counts(outcomes: Seq<Result<i64, String>>)
    ensures
        stored_ids(outcomes).len() + failed_positions(outcomes).len() == outcomes.len(),
        forall|k: int|
            0 <= k < failed_positions(outcomes).len() ==> 0 <= #[trigger] failed_positions(outcomes)[k]
                < outcomes.len() && outcomes[failed_positions(outcomes)[k]] is Err,
    decreases outcomes.len(),
{
    if outcomes.len() > 0 {
        lemma_tally_counts(outcomes.drop_last());
    }
}

/// The tally of an import, from the outcome of each document (its new id or
/// the reason it failed) and the documents' titles: the stored ids in order,
/// and for each failure its position, title and reason.
pub fn import_tally(outcomes: &Vec<Result<i64, String>>, titles: &Vec<String>) -> (r: ImportResult)
    requires
        titles@.len() == outcomes@.len(),
    ensures
        r.total_count == outcomes@.len(),
        r.success_count == stored_ids(outcomes@).len(),
        r.failed_count == failed_positions(outcomes@).len(),
        r.document_ids@ == stored_ids(outcomes@),
        r.errors@.len() == failed_positions(outcomes@).len(),
        forall|k: int|
            0 <= k < r.errors@.len() ==> {
                let e = #[trigger] r.errors@[k];
                let p = failed_positions(outcomes@)[k];
                &&& e.index == p
                &&& e.title@ == titles@[p]@
                &&& outcomes@[p] matches Err(m) && e.error@ == m@
            },
{
    let mut ids: Vec<i64> = Vec::new();
    let mut errors: Vec<ImportError> = Vec::new();
    let mut i: usize = 0;
    while i < outcomes.len()
        invariant
            0 <= i <= outcomes.len(),
            titles@.len() == outcomes@.len(),
            ids@ == stored_ids(outcomes@.take(i as int)),
            errors@.len() == failed_positions(outcomes@.take(i as int)).len(),
            forall|k: int|
                0 <= k < errors@.len() ==> {
                    let e = #[trigger] errors@[k];
                    let p = failed_positions(outcomes@.take(i as int))[k];
                    &&& e.index == p
                    &&& 0 <= p < i
                    &&& e.title@ == titles@[p]@
                    &&& outcomes@[p] matches Err(m) && e.error@ == m@
                },
        decreases outcomes.len() - i,
    {
        proof {
            assert(outcomes@.take(i + 1).drop_last() =~= outcomes@.take(i as int));
            assert(outcomes@.take(i + 1).last() == outcomes@[i as int]);
        }
        match &outcomes[i] {
            Ok(id) => {
                ids.push(*id);
            },
            Err(m) => {
                let ghost before = errors@;
                errors.push(ImportError { index: i, title: titles[i].clone(), error: m.clone() });
                proof {
                    let fp = failed_positions(outcomes@.take(i + 1));
                    assert(fp == failed_positions(outcomes@.take(i as int)).push(i as int));
                    assert forall|k: int| 0 <= k < errors@.len() implies {
                        let e = #[trigger] errors@[k];
                        let p = fp[k];
                        &&& e.index == p
                        &&& 0 <= p < i + 1
                        &&& e.title@ == titles@[p]@
                        &&& outcomes@[p] matches Err(m) && e.error@ == m@
                    } by {
                        if k < before.len() {
                            assert(errors@[k] == before[k]);
                        }
                    }
                }
            },
        }
        i = i + 1;
    }
    assert(outcomes@.take(outcomes.len() as int) =~= outcomes@);
    proof {
        lemma_tally_counts(outcomes@);
    }
    ImportResult {
        success_count: ids.len(),
        failed_count: errors.len(),
        total_count: outcomes.len(),
        errors,
        document_ids: ids,
    }
}

/// Every document of an import is counted once: as stored or as failed.
pub proof fn lemma_import_counts_add_up(outcomes: Seq<Result<i64, String>>)
    ensures
        stored_ids(outcomes).len() + failed_positions(outcomes).len() == outcomes.len(),
{
    lemma_tally_counts(outcomes);
}

/// What `DefaultHasher` (created with `DefaultHasher::new`) gives for a
/// text hashed with `Hash`.
pub uninterp spec fn default_hash(s: Seq<char>) -> u64;

/// `BuildHasher::hash_one` with `BuildHasherDefault<DefaultHasher>`: hashes
/// a text with a new `std::collections::hash_map::DefaultHasher` and
/// returns `finish()`. The contract names the result as a function of the
/// text; the algorithm is the standard library's.
#[verifier::external_body]
fn hash_text(input: &str) -> (r: u64)
    ensures
        r == default_hash(input@),
{
    let builder = std::hash::BuildHasherDefault::<std::collections::hash_map::DefaultHasher>::default();
    std::hash::BuildHasher::hash_one(&builder, input)
}

/// The lowercase hexadecimal digit for `d < 16`.
pub open spec fn hex_digit(d: nat) -> char {
    if d < 10 {
        crate::text::digit_char(d)
    } else if d == 10 {
        'a'
    } else if d == 11 {
        'b'
    } else if d == 12 {
        'c'
    } else if d == 13 {
        'd'
    } else if d == 14 {
        'e'
    } else {
        'f'
    }
}

/// Lowercase hexadecimal digits of `n`, without leading zeros (`{:x}`).
pub open spec fn hex_text(n: nat) -> Seq<char>
    decreases n,
{
    if n < 16 {
        seq![hex_digit(n)]
    } else {
        hex_text(n / 16).push(hex_digit(n % 16))
    }
}

fn hex_digit_exec(d: u64) -> (c: char)
    requires
        d < 16,
    ensures
        c == hex_digit(d as nat),
{
    if d < 10 {
        crate::text::digit(d)
    } else if d == 10 {
        'a'
    } else if d == 11 {
        'b'
    } else if d == 12 {
        'c'
    } else if d == 13 {
        'd'
    } else if d == 14 {
        'e'
    } else {
        'f'
    }
}

/// `n` in lowercase hexadecimal.
pub fn hex_string(n: u64) -> (r: String)
    ensures
        r@ == hex_text(n as nat),
    decreases n,
{
    if n < 16 {
        let mut r = String::new();
        crate::text::push_char(&mut r, hex_digit_exec(n));
        assert(r@ =~= seq![hex_digit(n as nat)]);
        r
    } else {
        let mut r = hex_string(n / 16);
        crate::text::push_char(&mut r, hex_digit_exec(n % 16));
        r
    }
}

/// The content hash stored with an imported document: its `DefaultHasher`
/// hash in lowercase hexadecimal.
pub fn content_hash(content: &str) -> (r: String)
    ensures
        r@ == hex_text(default_hash(content@) as nat),
{
    hex_string(hash_text(content))
}

} // verus!
