//! Background task kinds and states, their stored names, and the decisions of
//! the task worker.
use vstd::prelude::*;
use crate::text::{chars_eq, chars_of, extend_chars, extend_str, i64_chars, int_text, string_of};

verus! {

/// The kind of a background task.
#[derive(PartialEq, Eq, Structural, Clone, Copy, Debug)]
pub enum TaskType {
    DocumentProcess,
    DocumentReindex,
    DocumentDistill,
    BatchProcess,
}

/// The state of a background task.
#[derive(PartialEq, Eq, Structural, Clone, Copy, Debug)]
pub enum TaskStatus {
    Pending,
    Processing,
    Completed,
    Failed,
    Cancelled,
}

/// The stored name of a task kind.
pub open spec fn task_type_name(t: TaskType) -> Seq<char> {
    match t {
        TaskType::DocumentProcess => "document_process"@,
        TaskType::DocumentReindex => "document_reindex"@,
        TaskType::DocumentDistill => "document_distill"@,
        TaskType::BatchProcess => "batch_process"@,
    }
}

/// The stored name of a task state.
pub open spec fn task_status_name(s: TaskStatus) -> Seq<char> {
    match s {
        TaskStatus::Pending => "pending"@,
        TaskStatus::Processing => "processing"@,
        TaskStatus::Completed => "completed"@,
        TaskStatus::Failed => "failed"@,
        TaskStatus::Cancelled => "cancelled"@,
    }
}

/// The task kind a stored name denotes; unknown names read as
/// `DocumentProcess`.
pub open spec fn task_type_of(name: Seq<char>) -> TaskType {
    if name == "document_reindex"@ {
        TaskType::DocumentReindex
    } else if name == "document_distill"@ {
        TaskType::DocumentDistill
    } else if name == "batch_process"@ {
        TaskType::BatchProcess
    } else {
        TaskType::DocumentProcess
    }
}

/// The task state a stored name denotes; unknown names read as `Pending`.
pub open spec fn task_status_of(name: Seq<char>) -> TaskStatus {
    if name == "processing"@ {
        TaskStatus::Processing
    } else if name == "completed"@ {
        TaskStatus::Completed
    } else if name == "failed"@ {
        TaskStatus::Failed
    } else if name == "cancelled"@ {
        TaskStatus::Cancelled
    } else {
        TaskStatus::Pending
    }
}

fn is_lit(s: &str, lit: &str) -> (r: bool)
    ensures
        r == (s@ == lit@),
{
    let a = chars_of(s);
    let b = chars_of(lit);
    chars_eq(a.as_slice(), b.as_slice())
}

impl TaskType {
    /// The stored name of this kind.
    pub fn as_str(&self) -> (s: &'static str)
        ensures
            s@ == task_type_name(*self),
    {
        match self {
            TaskType::DocumentProcess => "document_process",
            TaskType::DocumentReindex => "document_reindex",
            TaskType::DocumentDistill => "document_distill",
            TaskType::BatchProcess => "batch_process",
        }
    }

    /// The kind a stored name denotes (unknown names: `DocumentProcess`).
    pub fn from_name(name: &str) -> (t: TaskType)
        ensures
            t == task_type_of(name@),
    {
        if is_lit(name, "document_reindex") {
            TaskType::DocumentReindex
        } else if is_lit(name, "document_distill") {
            TaskType::DocumentDistill
        } else if is_lit(name, "batch_process") {
            TaskType::BatchProcess
        } else {
            TaskType::DocumentProcess
        }
    }
}

impl TaskStatus {
    /// The stored name of this state.
    pub fn as_str(&self) -> (s: &'static str)
        ensures
            s@ == task_status_name(*self),
    {
        match self {
            TaskStatus::Pending => "pending",
            TaskStatus::Processing => "processing",
            TaskStatus::Completed => "completed",
            TaskStatus::Failed => "failed",
            TaskStatus::Cancelled => "cancelled",
        }
    }

    /// The state a stored name denotes (unknown names: `Pending`).
    pub fn from_name(name: &str) -> (s: TaskStatus)
        ensures
            s == task_status_of(name@),
    {
        if is_lit(name, "processing") {
            TaskStatus::Processing
        } else if is_lit(name, "completed") {
            TaskStatus::Completed
        } else if is_lit(name, "failed") {
            TaskStatus::Failed
        } else if is_lit(name, "cancelled") {
            TaskStatus::Cancelled
        } else {
            TaskStatus::Pending
        }
    }

    /// Whether entering this state stamps the completion time.
    pub fn sets_completed_at(&self) -> (b: bool)
        ensures
            b == (*self == TaskStatus::Completed || *self == TaskStatus::Failed || *self
                == TaskStatus::Cancelled),
    {
        match self {
            TaskStatus::Completed | TaskStatus::Failed | TaskStatus::Cancelled => true,
            _ => false,
        }
    }

    /// Whether entering this state stamps the start time.
    pub fn sets_started_at(&self) -> (b: bool)
        ensures
            b == (*self == TaskStatus::Processing),
    {
        match self {
            TaskStatus::Processing => true,
            _ => false,
        }
    }
}

/// A task kind read back from its stored name is the same kind.
pub proof fn lemma_task_type_name_round_trip(t: TaskType)
    ensures
        task_type_of(task_type_name(t)) == t,
{
    reveal_strlit("document_process");
    reveal_strlit("document_reindex");
    reveal_strlit("document_distill");
    reveal_strlit("batch_process");
    // the names differ at position 9, or in length
    assert("document_process"@[9] != "document_reindex"@[9]);
    assert("document_process"@[9] != "document_distill"@[9]);
    assert("document_reindex"@[9] != "document_distill"@[9]);
}

/// A task state read back from its stored name is the same state.
pub proof fn lemma_task_status_name_round_trip(s: TaskStatus)
    ensures
        task_status_of(task_status_name(s)) == s,
{
    reveal_strlit("pending");
    reveal_strlit("processing");
    reveal_strlit("completed");
    reveal_strlit("failed");
    reveal_strlit("cancelled");
    // the names differ in length, or at position 1
    assert("pending"@.len() == 7 && "processing"@.len() == 10 && "failed"@.len() == 6);
    assert("completed"@.len() == 9 && "cancelled"@.len() == 9);
    assert("completed"@[1] != "cancelled"@[1]);
}

/// The handler a worker runs for a task of a stored kind.
#[derive(PartialEq, Eq, Structural, Clone, Copy, Debug)]
pub enum TaskHandler {
    Process,
    Reindex,
    Distill,
    Batch,
    /// The stored kind names no handler.
    Unknown,
}

/// The handler for a stored kind name.
pub open spec fn handler_of(name: Seq<char>) -> TaskHandler {
    if name == "document_process"@ {
        TaskHandler::Process
    } else if name == "document_reindex"@ {
        TaskHandler::Reindex
    } else if name == "document_distill"@ {
        TaskHandler::Distill
    } else if name == "batch_process"@ {
        TaskHandler::Batch
    } else {
        TaskHandler::Unknown
    }
}

/// Which handler a worker runs for a task whose stored kind is `name`.
pub fn dispatch_task(name: &str) -> (h: TaskHandler)
    ensures
        h == handler_of(name@),
{
    if is_lit(name, "document_process") {
        TaskHandler::Process
    } else if is_lit(name, "document_reindex") {
        TaskHandler::Reindex
    } else if is_lit(name, "document_distill") {
        TaskHandler::Distill
    } else if is_lit(name, "batch_process") {
        TaskHandler::Batch
    } else {
        TaskHandler::Unknown
    }
}

/// The message a worker records for a task of an unknown kind.
pub fn unknown_task_message(name: &str) -> (m: String)
    ensures
        m@ == "Unknown task type: "@ + name@,
{
    let mut v = chars_of("Unknown task type: ");
    extend_str(&mut v, name);
    string_of(v.as_slice())
}

/// How a processed task is recorded.
pub struct TaskOutcome {
    pub status: TaskStatus,
    /// Progress in percent, when it is set.
    pub progress: Option<u8>,
    pub message: Option<String>,
}

/// The record a worker writes once a handler returned: `completed` at 100%,
/// or `failed` with the handler's error.
pub fn task_outcome(result: Result<(), String>) -> (o: TaskOutcome)
    ensures
        match result {
            Ok(_) => o.status == TaskStatus::Completed && o.progress == Some(100u8)
                && o.message is None,
            Err(e) => o.status == TaskStatus::Failed && o.progress is None && o.message is Some
                && o.message->0@ == e@,
        },
{
    match result {
        Ok(_) => TaskOutcome { status: TaskStatus::Completed, progress: Some(100), message: None },
        Err(e) => TaskOutcome { status: TaskStatus::Failed, progress: None, message: Some(e) },
    }
}

/// The name of the vector collection for a project.
pub open spec fn collection_name_spec(database: Seq<char>, project_id: Option<i64>) -> Seq<char> {
    if database == "default"@ {
        match project_id {
            Some(id) => "project_"@ + int_text(id as int),
            None => "default"@,
        }
    } else {
        match project_id {
            Some(id) => database + "_project_"@ + int_text(id as int),
            None => database + "_default"@,
        }
    }
}

/// The vector collection that holds a project's chunks: `project_<id>` (or
/// `default`) in the default database, prefixed by the database name in
/// others.
pub fn get_collection_name(database: &str, project_id: Option<i64>) -> (s: String)
    ensures
        s@ == collection_name_spec(database@, project_id),
{
    let mut v: Vec<char> = Vec::new();
    if is_lit(database, "default") {
        match project_id {
            Some(id) => {
                extend_str(&mut v, "project_");
                let d = i64_chars(id);
                extend_chars(&mut v, d.as_slice());
            },
            None => extend_str(&mut v, "default"),
        }
    } else {
        extend_str(&mut v, database);
        match project_id {
            Some(id) => {
                extend_str(&mut v, "_project_");
                let d = i64_chars(id);
                extend_chars(&mut v, d.as_slice());
            },
            None => extend_str(&mut v, "_default"),
        }
    }
    assert(v@ =~= collection_name_spec(database@, project_id));
    string_of(v.as_slice())
}

/// The ids joined by commas.
pub open spec fn join_ids(ids: Seq<i64>) -> Seq<char>
    decreases ids.len(),
{
    if ids.len() == 0 {
        Seq::empty()
    } else if ids.len() == 1 {
        int_text(ids[0] as int)
    } else {
        join_ids(ids.drop_last()) + ","@ + int_text(ids.last() as int)
    }
}

/// The filter that selects the vectors of some chunks: `chunk_id in [a,b,..]`.
pub fn chunk_delete_filter(chunk_ids: &[i64]) -> (s: String)
    ensures
        s@ == "chunk_id in ["@ + join_ids(chunk_ids@) + "]"@,
{
    let mut v = chars_of("chunk_id in [");
    let ghost head = v@;
    let mut i: usize = 0;
    while i < chunk_ids.len()
        invariant
            0 <= i <= chunk_ids.len(),
            head == "chunk_id in ["@,
            v@ == head + join_ids(chunk_ids@.take(i as int)),
        decreases chunk_ids.len() - i,
    {
        proof {
            assert(chunk_ids@.take(i + 1).drop_last() =~= chunk_ids@.take(i as int));
        }
        if i > 0 {
            extend_str(&mut v, ",");
        }
        let d = i64_chars(chunk_ids[i]);
        extend_chars(&mut v, d.as_slice());
        proof {
            if i == 0 {
                assert(join_ids(chunk_ids@.take(0)) =~= Seq::empty());
            }
        }
        assert(v@ =~= head + join_ids(chunk_ids@.take(i + 1)));
        i = i + 1;
    }
    assert(chunk_ids@.take(chunk_ids.len() as int) =~= chunk_ids@);
    extend_str(&mut v, "]");
    string_of(v.as_slice())
}

/// The filter that deletes the vectors of a document's old chunks; none
/// when it had none (nothing is deleted then).
pub fn vector_delete_filter(chunk_ids: &[i64]) -> (r: Option<String>)
    ensures
        chunk_ids@.len() == 0 <==> r is None,
        r matches Some(f) ==> f@ == "chunk_id in ["@ + join_ids(chunk_ids@) + "]"@,
{
    if chunk_ids.len() == 0 {
        None
    } else {
        Some(chunk_delete_filter(chunk_ids))
    }
}

/// A document to create.
pub struct NewDocument {
    pub project_id: Option<i64>,
    pub topic: Option<String>,
    pub content: Option<String>,
    pub source_type: Option<String>,
    pub source_url: Option<String>,
    pub file_path: Option<String>,
    pub file_type: Option<String>,
    pub version: i32,
    pub chunk_count: i32,
}

/// What the payload of a document task holds, as its JSON members give it.
pub struct DocumentTaskPayload {
    /// `document_id`, when an integer.
    pub document_id: Option<i64>,
    pub topic: Option<String>,
    pub project_id: Option<i64>,
    pub source_type: Option<String>,
    pub source_url: Option<String>,
    pub file_path: Option<String>,
    pub file_type: Option<String>,
    /// `content`, when a string.
    pub content: Option<String>,
}

/// Where a document task gets its document.
pub enum DocumentSource {
    /// A stored document, by id.
    Existing(i64),
    /// A new document made from the payload.
    Create(NewDocument),
}

fn clone_opt(o: &Option<String>) -> (r: Option<String>)
    ensures
        r == *o,
{
    match o {
        Some(s) => Some(s.clone()),
        None => None,
    }
}

/// The document of a document task: the stored one the payload names, or a
/// new one (version 1, no chunks) with the payload's project, topic,
/// content (empty when missing) and source.
pub fn document_source(payload: &DocumentTaskPayload) -> (r: DocumentSource)
    ensures
        match payload.document_id {
            Some(id) => r matches DocumentSource::Existing(x) && x == id,
            None => r matches DocumentSource::Create(d) && {
                &&& d.project_id == payload.project_id
                &&& d.topic == payload.topic
                &&& d.content matches Some(c) && c@ == match payload.content {
                    Some(pc) => pc@,
                    None => Seq::empty(),
                }
                &&& d.source_type == payload.source_type
                &&& d.source_url == payload.source_url
                &&& d.file_path == payload.file_path
                &&& d.file_type == payload.file_type
                &&& d.version == 1
                &&& d.chunk_count == 0
            },
        },
{
    match payload.document_id {
        Some(id) => DocumentSource::Existing(id),
        None => DocumentSource::Create(
            NewDocument {
                project_id: payload.project_id,
                topic: clone_opt(&payload.topic),
                content: Some(
                    match &payload.content {
                        Some(c) => c.clone(),
                        None => String::new(),
                    },
                ),
                source_type: clone_opt(&payload.source_type),
                source_url: clone_opt(&payload.source_url),
                file_path: clone_opt(&payload.file_path),
                file_type: clone_opt(&payload.file_type),
                version: 1,
                chunk_count: 0,
            },
        ),
    }
}

/// The text of a stored document to process: its content, or an error when
/// it has none.
pub fn document_text(content: Option<String>) -> (r: Result<String, String>)
    ensures
        match r {
            Ok(t) => t@.len() > 0 && (content matches Some(c) && c@ == t@),
            Err(e) => e@ == "Document content is empty"@ && match content {
                Some(c) => c@.len() == 0,
                None => true,
            },
        },
{
    match content {
        Some(c) => if c.as_str().is_empty() {
            Err("Document content is empty".to_string())
        } else {
            Ok(c)
        },
        None => Err("Document content is empty".to_string()),
    }
}

/// The chunk size and overlap used for a project: those of its settings, or
/// 512 and 50.
pub fn chunk_params(settings: Option<(i32, i32)>) -> (r: (usize, usize))
    ensures
        match settings {
            Some((size, overlap)) => r == (size as usize, overlap as usize),
            None => r == (512usize, 50usize),
        },
{
    match settings {
        Some((size, overlap)) => (size as usize, overlap as usize),
        None => (512, 50),
    }
}

/// A chunk row to store.
pub struct NewDocumentChunk {
    pub document_id: i64,
    pub chunk_index: i32,
    pub chunk_text: Option<String>,
    pub embedding_status: Option<String>,
}

/// The rows of a document's chunks, numbered from 0 in order, marked `done`.
pub fn chunk_rows(document_id: i64, chunks: &Vec<crate::chunking::TextChunk>) -> (r: Vec<NewDocumentChunk>)
    ensures
        r@.len() == chunks@.len(),
        forall|k: int|
            0 <= k < r@.len() ==> {
                let row = #[trigger] r@[k];
                &&& row.document_id == document_id
                &&& row.chunk_index == k as i32
                &&& row.chunk_text matches Some(t) && t@ == chunks@[k].content@
                &&& row.embedding_status matches Some(st) && st@ == "done"@
            },
{
    let mut r: Vec<NewDocumentChunk> = Vec::new();
    let mut i: usize = 0;
    while i < chunks.len()
        invariant
            0 <= i <= chunks.len(),
            r@.len() == i,
            forall|k: int|
                0 <= k < i ==> {
                    let row = #[trigger] r@[k];
                    &&& row.document_id == document_id
                    &&& row.chunk_index == k as i32
                    &&& row.chunk_text matches Some(t) && t@ == chunks@[k].content@
                    &&& row.embedding_status matches Some(st) && st@ == "done"@
                },
        decreases chunks.len() - i,
    {
        r.push(
            NewDocumentChunk {
                document_id,
                chunk_index: i as i32,
                chunk_text: Some(chunks[i].content.clone()),
                embedding_status: Some("done".to_string()),
            },
        );
        i = i + 1;
    }
    r
}

/// One document of a batch task, as its JSON members give it.
pub struct BatchItem {
    pub topic: Option<String>,
    /// `content`, when a string.
    pub content: Option<String>,
    pub project_id: Option<i64>,
}

/// The document a batch item creates: none when its content is missing or
/// empty.
pub fn batch_document(item: &BatchItem) -> (r: Option<NewDocument>)
    ensures
        match item.content {
            Some(c) if c@.len() > 0 => r matches Some(d) && {
                &&& d.project_id == item.project_id
                &&& d.topic == item.topic
                &&& d.content matches Some(dc) && dc@ == c@
                &&& d.source_type is None && d.source_url is None && d.file_path is None && d.file_type is None
                &&& d.version == 1
                &&& d.chunk_count == 0
            },
            _ => r is None,
        },
{
    match &item.content {
        Some(c) => if c.as_str().is_empty() {
            None
        } else {
            Some(
                NewDocument {
                    project_id: item.project_id,
                    topic: clone_opt(&item.topic),
                    content: Some(c.clone()),
                    source_type: None,
                    source_url: None,
                    file_path: None,
                    file_type: None,
                    version: 1,
                    chunk_count: 0,
                },
            )
        },
        None => None,
    }
}

/// The progress note after `done` of `total` batch items: `Processed d/t`.
pub fn batch_progress_message(done: usize, total: usize) -> (r: String)
    ensures
        r@ == "Processed "@ + crate::text::nat_text(done as nat) + "/"@ + crate::text::nat_text(total as nat),
{
    let mut r = String::new();
    r.append("Processed ");
    let d = crate::text::u64_string(done as u64);
    r.append(d.as_str());
    r.append("/");
    let t = crate::text::u64_string(total as u64);
    r.append(t.as_str());
    r
}

/// The project of each vector stored for a document: the same project for
/// every one of `n` vectors.
pub fn project_ids_for(project_id: Option<i64>, n: usize) -> (r: Vec<Option<i64>>)
    ensures
        r@.len() == n,
        forall|k: int| 0 <= k < n ==> #[trigger] r@[k] == project_id,
{
    let mut r: Vec<Option<i64>> = Vec::new();
    let mut i: usize = 0;
    while i < n
        invariant
            0 <= i <= n,
            r@.len() == i,
            forall|k: int| 0 <= k < i ==> #[trigger] r@[k] == project_id,
        decreases n - i,
    {
        r.push(project_id);
        i = i + 1;
    }
    r
}

} // verus!
