//! The console's requests to a node and its reports on the answers.
use vstd::prelude::*;

use crate::text;
use crate::wire::ChunkModel;
use crate::wire::ProjectChunk;
use crate::wire::TaskRequest;
use crate::wire::TaskSubmitted;
use crate::wire::UploadAck;

verus! {

/// How many bytes of an archive go into one chunk.
pub const CHUNK_BYTES: usize = 65536;

/// The node that is asked unless another is named.
pub const DEFAULT_TARGET: &'static str = "http://127.0.0.1:50051";

/// The node to ask: the one that is named, if any.
pub fn target(named: Option<String>) -> (r: String)
    ensures
        match named {
            Some(t) => r == t,
            None => r@ == DEFAULT_TARGET@,
        },
{
    match named {
        Some(t) => t,
        None => DEFAULT_TARGET.to_owned(),
    }
}

/// A hexadecimal digit, in lower case.
pub open spec fn hex_digit(c: char) -> bool {
    ('0' <= c <= '9') || ('a' <= c <= 'f')
}

/// The text of a random (version 4) UUID: hexadecimal digits in groups of 8,
/// 4, 4, 4 and 12, hyphens between them, with the version and the variant in
/// their places.
pub open spec fn is_task_id(s: Seq<char>) -> bool {
    &&& s.len() == 36
    &&& forall|i: int|
        0 <= i < 36 ==> if i == 8 || i == 13 || i == 18 || i == 23 {
            #[trigger] s[i] == '-'
        } else {
            hex_digit(s[i])
        }
    &&& s[14] == '4'
    &&& (s[19] == '8' || s[19] == '9' || s[19] == 'a' || s[19] == 'b')
}

/// `uuid::Uuid::new_v4` draws a random UUID, and its `to_string` writes it in
/// the hyphenated lower-case form. Of the digits only what version and variant
/// fix is known. Where the operating system has no random bytes to give, the
/// call panics.
#[verifier::external_body]
fn random_task_id() -> (r: String)
    ensures
        is_task_id(r@),
{
    uuid::Uuid::new_v4().to_string()
}

/// The request that a node run `command` as the task `id`.
pub fn task_request(id: String, command: String) -> (r: TaskRequest)
    ensures
        r.id == id,
        r.command == command,
        r.workdir@ == "."@,
{
    TaskRequest { id, command, workdir: ".".to_owned() }
}

/// The request that a node run `command`, as a task with a fresh id.
pub fn submit_command(command: String) -> (r: TaskRequest)
    ensures
        is_task_id(r.id@),
        r.command == command,
        r.workdir@ == "."@,
{
    task_request(random_task_id(), command)
}

/// `true` or `false`.
pub open spec fn bool_text(b: bool) -> Seq<char> {
    if b {
        "true"@
    } else {
        "false"@
    }
}

fn text_of_bool(b: bool) -> (r: &'static str)
    ensures
        r@ == bool_text(b),
{
    if b {
        "true"
    } else {
        "false"
    }
}

/// What the console says of an answer to a submission.
pub fn submit_report(answer: &TaskSubmitted) -> (r: String)
    ensures
        r@ == "submitted "@ + answer.id@ + " accepted="@ + bool_text(answer.accepted) + " ("@
            + answer.message@ + ")"@,
{
    let mut r = "submitted ".to_owned();
    r.append(answer.id.as_str());
    r.append(" accepted=");
    r.append(text_of_bool(answer.accepted));
    r.append(" (");
    r.append(answer.message.as_str());
    r.append(")");
    r
}

/// What the console says of a submission that failed.
pub fn submit_failure(why: &str) -> (r: String)
    ensures
        r@ == "submit failed: "@ + why@,
{
    let mut r = "submit failed: ".to_owned();
    r.append(why);
    r
}

/// `data` cut into pieces of `CHUNK_BYTES`, of which the last may be shorter.
pub open spec fn pieces(data: Seq<u8>) -> Seq<Seq<u8>>
    decreases data.len(),
{
    if data.len() == 0 {
        Seq::empty()
    } else if data.len() <= CHUNK_BYTES {
        seq![data]
    } else {
        seq![data.take(CHUNK_BYTES as int)] + pieces(data.skip(CHUNK_BYTES as int))
    }
}

/// The chunks in which `data` is sent as the project of a job.
pub open spec fn chunked(job_id: Seq<char>, data: Seq<u8>) -> Seq<ChunkModel> {
    Seq::new(pieces(data).len(), |i: int| ChunkModel { job_id, data: pieces(data)[i] })
}

/// The values of a sequence of chunks.
pub open spec fn chunk_models(chunks: Seq<ProjectChunk>) -> Seq<ChunkModel> {
    Seq::new(chunks.len(), |i: int| chunks[i]@)
}

/// The chunks to send for an upload.
pub fn upload_project(job_id: &str, data: &[u8]) -> (r: Vec<ProjectChunk>)
    ensures
        chunk_models(r@) == chunked(job_id@, data@),
{
    let mut r: Vec<ProjectChunk> = Vec::new();
    let n = data.len();
    let mut i: usize = 0;
    assert(data@.skip(0) =~= data@);
    assert(pieces(data@).skip(0) =~= pieces(data@));
    while i < n
        invariant
            n == data@.len(),
            i <= n,
            r@.len() <= pieces(data@).len(),
            pieces(data@).skip(r@.len() as int) == pieces(data@.skip(i as int)),
            forall|k: int|
                0 <= k < r@.len() ==> (#[trigger] r@[k])@ == (ChunkModel {
                    job_id: job_id@,
                    data: pieces(data@)[k],
                }),
        decreases n - i,
    {
        let end = if n - i <= CHUNK_BYTES {
            n
        } else {
            i + CHUNK_BYTES
        };
        let ghost rest = data@.skip(i as int);
        let ghost k = r@.len() as int;
        let piece = vstd::slice::slice_subrange(data, i, end);
        let chunk = ProjectChunk {
            job_id: job_id.to_owned(),
            data: vstd::slice::slice_to_vec(piece),
        };
        proof {
            assert(pieces(rest).len() > 0);
            assert(pieces(data@)[k] == pieces(data@).skip(k)[0]);
            assert(pieces(rest)[0] =~= piece@);
            assert(pieces(data@).skip(k + 1) =~= pieces(rest).skip(1));
            if rest.len() > CHUNK_BYTES {
                assert(rest.skip(CHUNK_BYTES as int) =~= data@.skip(end as int));
                assert(pieces(rest).skip(1) =~= pieces(data@.skip(end as int)));
            } else {
                assert(data@.skip(end as int) =~= Seq::empty());
                assert(pieces(rest).skip(1) =~= Seq::empty());
            }
        }
        r.push(chunk);
        i = end;
    }
    assert(data@.skip(i as int) =~= Seq::empty());
    assert(pieces(data@).skip(r@.len() as int).len() == 0);
    assert(chunk_models(r@) =~= chunked(job_id@, data@));
    r
}

/// What the console says of an answer to an upload of `total` bytes.
pub fn upload_report(ack: &UploadAck, total: usize) -> (r: String)
    ensures
        r@ == "upload job="@ + ack.job_id@ + " ok="@ + bool_text(ack.ok) + " ("@ + ack.message@
            + ") total="@ + text::decimal(total as nat) + " bytes"@,
{
    let mut r = "upload job=".to_owned();
    r.append(ack.job_id.as_str());
    r.append(" ok=");
    r.append(text_of_bool(ack.ok));
    r.append(" (");
    r.append(ack.message.as_str());
    r.append(") total=");
    r.append(text::decimal_text(total as u64).as_str());
    r.append(" bytes");
    r
}

/// What the console says of an upload that failed.
pub fn upload_failure(why: &str) -> (r: String)
    ensures
        r@ == "upload failed: "@ + why@,
{
    let mut r = "upload failed: ".to_owned();
    r.append(why);
    r
}

} // verus!
