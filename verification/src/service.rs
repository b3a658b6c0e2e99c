//! Settings, object names and small answers of the vector service.
use vstd::prelude::*;
use crate::text::{chars_of, contains_seq, int_text, nat_text, string_of, text_contains, u64_string};

verus! {

// ----- object storage ---------------------------------------------------------

/// How to reach the object store.
pub struct MinioConfig {
    pub endpoint: String,
    pub access_key: String,
    pub secret_key: String,
    pub bucket: String,
}

/// The local object store with its default credentials and the service's
/// bucket.
pub open spec fn default_minio(c: MinioConfig) -> bool {
    &&& c.endpoint@ == "http://localhost:9000"@
    &&& c.access_key@ == "minioadmin"@
    &&& c.secret_key@ == "minioadmin"@
    &&& c.bucket@ == "vec-svc"@
}

impl Default for MinioConfig {
    fn default() -> (c: MinioConfig)
        ensures
            default_minio(c),
    {
        MinioConfig {
            endpoint: "http://localhost:9000".to_string(),
            access_key: "minioadmin".to_string(),
            secret_key: "minioadmin".to_string(),
            bucket: "vec-svc".to_string(),
        }
    }
}

fn or_default(v: Option<String>, d: &str) -> (r: String)
    ensures
        r@ == match v {
            Some(s) => s@,
            None => d@,
        },
{
    match v {
        Some(s) => s,
        None => d.to_string(),
    }
}

impl MinioConfig {
    /// The settings from the environment's `MINIO_ENDPOINT`,
    /// `MINIO_ACCESS_KEY`, `MINIO_SECRET_KEY` and `MINIO_BUCKET` (as read by
    /// the caller), each missing one taken from the defaults.
    pub fn from_env(
        endpoint: Option<String>,
        access_key: Option<String>,
        secret_key: Option<String>,
        bucket: Option<String>,
    ) -> (c: MinioConfig)
        ensures
            c.endpoint@ == match endpoint {
                Some(s) => s@,
                None => "http://localhost:9000"@,
            },
            c.access_key@ == match access_key {
                Some(s) => s@,
                None => "minioadmin"@,
            },
            c.secret_key@ == match secret_key {
                Some(s) => s@,
                None => "minioadmin"@,
            },
            c.bucket@ == match bucket {
                Some(s) => s@,
                None => "vec-svc"@,
            },
    {
        MinioConfig {
            endpoint: or_default(endpoint, "http://localhost:9000"),
            access_key: or_default(access_key, "minioadmin"),
            secret_key: or_default(secret_key, "minioadmin"),
            bucket: or_default(bucket, "vec-svc"),
        }
    }
}

/// A character kept out of object names: an ASCII control character or `/`.
pub open spec fn unsafe_in_key(c: char) -> bool {
    (c as u32) < 32 || (c as u32) == 127 || c == '/'
}

/// The name under which an uploaded file is stored: under
/// `project_<id>/` or `global/`, the time stamp, `_`, and the file name with
/// unsafe characters made `_`.
pub open spec fn object_key_spec(project_id: Option<i64>, timestamp: i64, file_name: Seq<char>) -> Seq<char> {
    let name = file_name.map_values(|c: char| if unsafe_in_key(c) { '_' } else { c });
    match project_id {
        Some(pid) => "project_"@ + int_text(pid as int) + "/"@ + int_text(timestamp as int) + "_"@ + name,
        None => "global/"@ + int_text(timestamp as int) + "_"@ + name,
    }
}

/// The object name for a file uploaded at `timestamp` (milliseconds).
pub fn object_key(project_id: Option<i64>, timestamp: i64, file_name: &str) -> (r: String)
    ensures
        r@ == object_key_spec(project_id, timestamp, file_name@),
{
    let mut r = String::new();
    match project_id {
        Some(pid) => {
            r.append("project_");
            let p = crate::text::i64_string(pid);
            r.append(p.as_str());
            r.append("/");
        },
        None => r.append("global/"),
    }
    let t = crate::text::i64_string(timestamp);
    r.append(t.as_str());
    r.append("_");
    let ghost head = r@;
    let cs = chars_of(file_name);
    let mut i: usize = 0;
    while i < cs.len()
        invariant
            0 <= i <= cs.len(),
            cs@ == file_name@,
            r@ == head + cs@.take(i as int).map_values(|c: char| if unsafe_in_key(c) { '_' } else { c }),
        decreases cs.len() - i,
    {
        let c = cs[i];
        let u = c as u32;
        let out = if u < 32 || u == 127 || c == '/' {
            '_'
        } else {
            c
        };
        crate::text::push_char(&mut r, out);
        assert(cs@.take(i + 1).map_values(|c: char| if unsafe_in_key(c) { '_' } else { c }) =~= cs@.take(
            i as int,
        ).map_values(|c: char| if unsafe_in_key(c) { '_' } else { c }).push(out));
        i = i + 1;
    }
    assert(cs@.take(cs.len() as int) =~= cs@);
    r
}

/// `chrono::Utc::now().timestamp_millis()`: the current time in
/// milliseconds since the epoch. Nothing is claimed of it.
#[verifier::external_body]
fn now_millis() -> i64 {
    chrono::Utc::now().timestamp_millis()
}

/// The object name for a file uploaded now.
pub fn generate_object_key(project_id: Option<i64>, file_name: &str) -> (r: String)
    ensures
        exists|t: i64| r@ == object_key_spec(project_id, t, file_name@),
{
    let t = now_millis();
    object_key(project_id, t, file_name)
}

/// The prefix of a project's objects: `project_<id>/`, or none for all.
pub fn object_prefix(project_id: Option<i64>) -> (r: String)
    ensures
        r@ == match project_id {
            Some(pid) => "project_"@ + int_text(pid as int) + "/"@,
            None => Seq::empty(),
        },
{
    match project_id {
        Some(pid) => {
            let mut r = String::new();
            r.append("project_");
            let p = crate::text::i64_string(pid);
            r.append(p.as_str());
            r.append("/");
            r
        },
        None => String::new(),
    }
}

/// A request to upload a file.
pub struct UploadFileRequest {
    pub project_id: Option<i64>,
    pub file_name: String,
    pub content_type: String,
}

/// The answer to an upload: where the file is and a link to it.
pub struct UploadFileResponse {
    pub object_name: String,
    pub presigned_url: String,
}

/// The answer to a download.
pub struct DownloadFileResponse {
    pub content: Vec<u8>,
    pub content_type: String,
}

/// A downloaded object, always sent as `application/octet-stream`.
pub fn download_response(content: Vec<u8>) -> (r: DownloadFileResponse)
    ensures
        r.content@ == content@,
        r.content_type@ == "application/octet-stream"@,
{
    DownloadFileResponse { content, content_type: "application/octet-stream".to_string() }
}

/// A request for a link to an object.
pub struct GetPresignedUrlRequest {
    pub expires_hours: Option<u64>,
}

/// A link to an object.
pub struct GetPresignedUrlResponse {
    pub url: String,
}

/// The objects of a project.
pub struct ListFilesResponse {
    pub files: Vec<String>,
}

/// How long a link stays valid, in seconds: the requested hours (24 when not
/// given) times 3600, cut to 32 bits as the store takes it.
pub fn presigned_seconds(req: &GetPresignedUrlRequest) -> (r: u32)
    requires
        match req.expires_hours {
            Some(h) => h * 3600 <= u64::MAX,
            None => true,
        },
    ensures
        r == (match req.expires_hours {
            Some(h) => h,
            None => 24,
        } * 3600) as u32,
{
    let hours = match req.expires_hours {
        Some(h) => h,
        None => 24,
    };
    let secs: u64 = hours * 3600;
    secs as u32
}

/// How long the link given after an upload stays valid: a day, in seconds.
pub const UPLOAD_LINK_SECONDS: u32 = 86400;

// ----- the vector database ----------------------------------------------------

/// How to reach the vector database.
pub struct MilvusConfig {
    pub host: String,
    pub port: u16,
    pub database: String,
}

/// A text without one leading `+`.
pub open spec fn strip_plus(s: Seq<char>) -> Seq<char> {
    if s.len() > 0 && s[0] == '+' {
        s.drop_first()
    } else {
        s
    }
}

/// One or more ASCII digits whose value is at most 65535.
pub open spec fn u16_digits(d: Seq<char>) -> bool {
    d.len() > 0 && (forall|i: int| 0 <= i < d.len() ==> is_digit(#[trigger] d[i])) && digits_value(d) <= 65535
}

/// The value of a decimal text as `str::parse::<u16>` reads it: an optional
/// `+`, then one or more ASCII digits, at most 65535.
pub open spec fn u16_value(s: Seq<char>) -> Option<u16> {
    if u16_digits(strip_plus(s)) {
        Some(digits_value(strip_plus(s)) as u16)
    } else {
        None
    }
}

/// An ASCII digit.
pub open spec fn is_digit(c: char) -> bool {
    '0' <= c && c <= '9'
}

/// The value of a string of ASCII digits.
pub open spec fn digits_value(d: Seq<char>) -> nat
    decreases d.len(),
{
    if d.len() == 0 {
        0
    } else {
        digits_value(d.drop_last()) * 10 + ((d.last() as u32) - ('0' as u32)) as nat
    }
}

/// Reads a port number (`str::parse::<u16>`).
pub fn parse_u16(s: &str) -> (r: Option<u16>)
    ensures
        r == u16_value(s@),
{
    let cs = chars_of(s);
    let start: usize = if cs.len() > 0 && cs[0] == '+' {
        1
    } else {
        0
    };
    let ghost d = strip_plus(s@);
    assert(d =~= cs@.subrange(start as int, cs@.len() as int));
    if start == cs.len() {
        return None;
    }
    let mut v: u32 = 0;
    let mut i: usize = start;
    while i < cs.len()
        invariant
            start <= i <= cs.len(),
            start < cs.len(),
            cs@ == s@,
            d == strip_plus(s@),
            d == cs@.subrange(start as int, cs@.len() as int),
            forall|k: int| start <= k < i ==> is_digit(#[trigger] cs@[k]),
            v == digits_value(cs@.subrange(start as int, i as int)),
            v <= 65535,
        decreases cs.len() - i,
    {
        let c = cs[i];
        if c < '0' || c > '9' {
            assert(d[i - start] == cs@[i as int]);
            assert(!is_digit(d[i - start]));
            assert(!(forall|k: int| 0 <= k < d.len() ==> is_digit(#[trigger] d[k])));
            assert(u16_value(s@) is None);
            return None;
        }
        assert(cs@.subrange(start as int, i + 1).drop_last() =~= cs@.subrange(start as int, i as int));
        let nv = v * 10 + ((c as u32) - ('0' as u32));
        if nv > 65535 {
            proof {
                assert(digits_value(cs@.subrange(start as int, i + 1)) == nv);
                lemma_digits_grow(d, (i + 1 - start) as int);
                assert(d.subrange(0, i + 1 - start) =~= cs@.subrange(start as int, i + 1));
            }
            return None;
        }
        v = nv;
        i = i + 1;
    }
    assert(cs@.subrange(start as int, cs@.len() as int) =~= d);
    assert forall|k: int| 0 <= k < d.len() implies is_digit(#[trigger] d[k]) by {
        assert(d[k] == cs@[start + k]);
    }
    Some(v as u16)
}

/// The value of a digit string is at least that of any of its prefixes.
proof fn lemma_digits_grow(d: Seq<char>, n: int)
    requires
        0 <= n <= d.len(),
    ensures
        digits_value(d.subrange(0, n)) <= digits_value(d),
    decreases d.len() - n,
{
    if n < d.len() {
        lemma_digits_grow(d, n + 1);
        assert(d.subrange(0, n + 1).drop_last() =~= d.subrange(0, n));
    } else {
        assert(d.subrange(0, n) =~= d);
    }
}

impl MilvusConfig {
    /// The settings from the environment's `MILVUS_HOST`, `MILVUS_PORT` and
    /// `MILVUS_DATABASE` (as read by the caller): `localhost`, 19530 (also
    /// when the port is not a number) and `default` when missing.
    pub fn from_env(host: Option<String>, port: Option<String>, database: Option<String>) -> (c: MilvusConfig)
        ensures
            c.host@ == match host {
                Some(s) => s@,
                None => "localhost"@,
            },
            c.port == match port {
                Some(p) => match u16_value(p@) {
                    Some(v) => v,
                    None => 19530u16,
                },
                None => 19530u16,
            },
            c.database@ == match database {
                Some(s) => s@,
                None => "default"@,
            },
    {
        let p = match &port {
            Some(text) => match parse_u16(text.as_str()) {
                Some(v) => v,
                None => 19530,
            },
            None => {
                proof {
                    reveal_strlit("19530");
                }
                19530
            },
        };
        MilvusConfig { host: or_default(host, "localhost"), port: p, database: or_default(database, "default") }
    }

    /// The address of the database: `http://<host>:<port>`.
    pub fn url(&self) -> (r: String)
        ensures
            r@ == "http://"@ + self.host@ + ":"@ + nat_text(self.port as nat),
    {
        let mut r = String::new();
        r.append("http://");
        r.append(self.host.as_str());
        r.append(":");
        let p = u64_string(self.port as u64);
        r.append(p.as_str());
        r
    }
}

// ----- answers ----------------------------------------------------------------

/// A request to embed a text.
pub struct EmbedRequest {
    pub text: String,
}

/// A request to embed several texts.
pub struct EmbedBatchRequest {
    pub texts: Vec<String>,
}

/// The health of the service.
pub struct HealthResponse {
    pub status: String,
    pub embedding_loaded: bool,
    pub milvus_connected: bool,
}

/// The health answer: `healthy` when the model is loaded and the database
/// reachable, `degraded` otherwise.
pub fn health_status(embedding_loaded: bool, milvus_connected: bool) -> (r: HealthResponse)
    ensures
        r.status@ == (if embedding_loaded && milvus_connected {
            "healthy"@
        } else {
            "degraded"@
        }),
        r.embedding_loaded == embedding_loaded,
        r.milvus_connected == milvus_connected,
{
    let status = if embedding_loaded && milvus_connected {
        "healthy"
    } else {
        "degraded"
    };
    HealthResponse { status: status.to_string(), embedding_loaded, milvus_connected }
}

/// A query for the analytics of a project.
pub struct AnalyticsQuery {
    pub project_id: Option<i64>,
    pub days: Option<i64>,
}

/// A query for the statistics of a document.
pub struct DocumentStatsQuery {
    pub document_id: i64,
    pub days: Option<i64>,
}

/// The period of an analytics summary, in days: 7 when not given.
pub fn summary_days(q: &AnalyticsQuery) -> (r: i64)
    ensures
        r == match q.days {
            Some(d) => d,
            None => 7,
        },
{
    match q.days {
        Some(d) => d,
        None => 7,
    }
}

/// The period of document statistics, in days: 30 when not given.
pub fn stats_days(q: &DocumentStatsQuery) -> (r: i64)
    ensures
        r == match q.days {
            Some(d) => d,
            None => 30,
        },
{
    match q.days {
        Some(d) => d,
        None => 30,
    }
}

/// The statistics of a document.
pub struct DocumentStats {
    pub document_id: i64,
    pub view_count: i64,
    pub search_count: i64,
    pub share_count: i64,
    pub average_read_time: i64,
}

/// The statistics of a document from its counted views and searches; shares
/// and reading time are not tracked.
pub fn document_stats(document_id: i64, view_count: Option<i64>, search_count: Option<i64>) -> (r: DocumentStats)
    ensures
        r.document_id == document_id,
        r.view_count == match view_count {
            Some(v) => v,
            None => 0,
        },
        r.search_count == match search_count {
            Some(v) => v,
            None => 0,
        },
        r.share_count == 0,
        r.average_read_time == 0,
{
    DocumentStats {
        document_id,
        view_count: match view_count {
            Some(v) => v,
            None => 0,
        },
        search_count: match search_count {
            Some(v) => v,
            None => 0,
        },
        share_count: 0,
        average_read_time: 0,
    }
}

/// The content type a response gets: a JSON type without a charset gets
/// `application/json; charset=utf-8`; any other is kept (`None`).
pub fn json_charset(content_type: &str) -> (r: Option<String>)
    ensures
        match r {
            Some(t) => contains_seq(content_type@, "application/json"@) && !contains_seq(content_type@, "charset"@)
                && t@ == "application/json; charset=utf-8"@,
            None => !contains_seq(content_type@, "application/json"@) || contains_seq(content_type@, "charset"@),
        },
{
    if text_contains(content_type, "application/json") && !text_contains(content_type, "charset") {
        Some("application/json; charset=utf-8".to_string())
    } else {
        None
    }
}

} // verus!
