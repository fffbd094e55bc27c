//! Receiving a project archive: the chunks go into one file, which is then
//! unpacked.
use vstd::prelude::*;

use crate::text;
use crate::wire::ChunkModel;
use crate::wire::ProjectChunk;
use crate::wire::UploadAck;

verus! {

/// Where archives and projects are kept.
pub const STORE_DIR: &'static str = "/tmp/fluxa";

/// Where the archive of a job is kept.
pub open spec fn archive_path(job_id: Seq<char>) -> Seq<char> {
    "/tmp/fluxa/"@ + job_id + ".tar.gz"@
}

/// Where the archive of a job is unpacked.
pub open spec fn extract_dir(job_id: Seq<char>) -> Seq<char> {
    "/tmp/fluxa/"@ + job_id
}

/// Where the archive of a job is kept.
pub fn job_archive_path(job_id: &str) -> (r: String)
    ensures
        r@ == archive_path(job_id@),
{
    let mut r = "/tmp/fluxa/".to_owned();
    r.append(job_id);
    r.append(".tar.gz");
    r
}

/// Where the archive of a job is unpacked.
pub fn job_extract_dir(job_id: &str) -> (r: String)
    ensures
        r@ == extract_dir(job_id@),
{
    let mut r = "/tmp/fluxa/".to_owned();
    r.append(job_id);
    r
}

/// Whose fault it is that an upload is refused.
#[derive(Clone, Copy, Debug, PartialEq, Eq, Structural)]
pub enum RefusalKind {
    /// The client sent what cannot be accepted.
    InvalidArgument,
    /// The node failed.
    Internal,
}

/// Why an upload is refused.
#[derive(Debug, PartialEq, Eq)]
pub struct Refusal {
    pub kind: RefusalKind,
    pub message: String,
}

/// The value of a `Refusal`.
#[verifier::ext_equal]
pub struct RefusalModel {
    pub kind: RefusalKind,
    pub message: Seq<char>,
}

impl View for Refusal {
    type V = RefusalModel;

    open spec fn view(&self) -> RefusalModel {
        RefusalModel { kind: self.kind, message: self.message@ }
    }
}

/// What the node does for an upload, each of which can fail.
#[derive(Clone, Copy, Debug, PartialEq, Eq, Structural)]
pub enum UploadStage {
    CreateStore,
    Receive,
    CreateArchive,
    WriteArchive,
    CreateExtractDir,
    RunTar,
}

impl UploadStage {
    /// How a failure of the stage is called.
    pub open spec fn complaint(self) -> Seq<char> {
        match self {
            UploadStage::CreateStore => "create /tmp/fluxa failed: "@,
            UploadStage::Receive => "stream recv error: "@,
            UploadStage::CreateArchive => "create archive failed: "@,
            UploadStage::WriteArchive => "write archive failed: "@,
            UploadStage::CreateExtractDir => "create extract dir failed: "@,
            UploadStage::RunTar => "tar exec failed: "@,
        }
    }

    /// The refusal that follows from a failure of the stage.
    pub fn refusal(self, why: &str) -> (r: Refusal)
        ensures
            r@ == (RefusalModel { kind: RefusalKind::Internal, message: self.complaint() + why@ }),
    {
        let complaint = match self {
            UploadStage::CreateStore => "create /tmp/fluxa failed: ",
            UploadStage::Receive => "stream recv error: ",
            UploadStage::CreateArchive => "create archive failed: ",
            UploadStage::WriteArchive => "write archive failed: ",
            UploadStage::CreateExtractDir => "create extract dir failed: ",
            UploadStage::RunTar => "tar exec failed: ",
        };
        let mut message = complaint.to_owned();
        message.append(why);
        Refusal { kind: RefusalKind::Internal, message }
    }
}

/// An upload that is being received.
#[derive(Debug)]
pub struct UploadSession {
    /// The job, as the first chunk names it.
    pub job_id: Option<String>,
    pub total_bytes: usize,
}

/// The value of an `UploadSession`.
#[verifier::ext_equal]
pub struct SessionModel {
    pub job_id: Option<Seq<char>>,
    pub total_bytes: nat,
}

impl View for UploadSession {
    type V = SessionModel;

    open spec fn view(&self) -> SessionModel {
        SessionModel {
            job_id: match self.job_id {
                Some(id) => Some(id@),
                None => None,
            },
            total_bytes: self.total_bytes as nat,
        }
    }
}

/// What to do with a chunk: create the archive where a path is given, then
/// append the data to it.
#[derive(Debug, PartialEq, Eq)]
pub struct ChunkWrite {
    pub create: Option<String>,
    pub data: Vec<u8>,
}

/// The value of a `ChunkWrite`.
#[verifier::ext_equal]
pub struct WriteModel {
    pub create: Option<Seq<char>>,
    pub data: Seq<u8>,
}

impl View for ChunkWrite {
    type V = WriteModel;

    open spec fn view(&self) -> WriteModel {
        WriteModel {
            create: match self.create {
                Some(path) => Some(path@),
                None => None,
            },
            data: self.data@,
        }
    }
}

impl SessionModel {
    /// An upload of which nothing has come yet.
    pub open spec fn empty() -> Self {
        SessionModel { job_id: None, total_bytes: 0 }
    }

    /// The job, once it is known, is not blank.
    pub open spec fn named(self) -> bool {
        self.job_id matches Some(id) ==> !text::blank(id)
    }

    /// The chunk has to name a job and does not.
    pub open spec fn refuses(self, chunk: ChunkModel) -> bool {
        self.job_id is None && text::blank(chunk.job_id)
    }

    /// The upload with a chunk more. The first chunk names the job; what later
    /// ones name is not looked at.
    pub open spec fn received(self, chunk: ChunkModel) -> Self {
        SessionModel {
            job_id: match self.job_id {
                Some(id) => Some(id),
                None => Some(chunk.job_id),
            },
            total_bytes: self.total_bytes + chunk.data.len(),
        }
    }

    /// What to do with a chunk: the first one starts the archive.
    pub open spec fn write(self, chunk: ChunkModel) -> WriteModel {
        WriteModel {
            create: match self.job_id {
                Some(_) => None,
                None => Some(archive_path(chunk.job_id)),
            },
            data: chunk.data,
        }
    }
}

/// The refusal of an upload whose first chunk names no job.
pub open spec fn nameless() -> RefusalModel {
    RefusalModel {
        kind: RefusalKind::InvalidArgument,
        message: "job_id is required in first chunk"@,
    }
}

/// The refusal of an upload without chunks.
pub open spec fn chunkless() -> RefusalModel {
    RefusalModel { kind: RefusalKind::InvalidArgument, message: "no chunks received"@ }
}

/// The command that unpacks `archive` into `dir`.
pub open spec fn tar_command(archive: Seq<char>, dir: Seq<char>) -> Seq<char> {
    "tar -xzf '"@ + archive + "' -C '"@ + dir + "'"@
}

/// An archive that has been received and is to be unpacked.
#[derive(Debug, PartialEq, Eq)]
pub struct Extraction {
    pub job_id: String,
    pub extract_dir: String,
    /// The shell command that unpacks the archive into `extract_dir`.
    pub command: String,
    pub total_bytes: usize,
}

/// How an upload ended: a line for the log, and the answer.
#[derive(Debug, PartialEq, Eq)]
pub struct UploadOutcome {
    pub log: Option<String>,
    pub ack: UploadAck,
}

impl UploadSession {
    /// An upload of which nothing has come yet.
    pub fn new() -> (r: Self)
        ensures
            r@ == SessionModel::empty(),
            r@.named(),
    {
        UploadSession { job_id: None, total_bytes: 0 }
    }

    /// Takes in a chunk.
    pub fn receive(&mut self, chunk: ProjectChunk) -> (r: Result<ChunkWrite, Refusal>)
        requires
            old(self)@.total_bytes + chunk@.data.len() <= usize::MAX,
        ensures
            match r {
                Ok(w) => {
                    &&& !old(self)@.refuses(chunk@)
                    &&& w@ == old(self)@.write(chunk@)
                    &&& final(self)@ == old(self)@.received(chunk@)
                    &&& old(self)@.named() ==> final(self)@.named()
                },
                Err(e) => {
                    &&& old(self)@.refuses(chunk@)
                    &&& e@ == nameless()
                    &&& final(self)@ == old(self)@
                },
            },
    {
        let create = if self.job_id.is_none() {
            if text::is_blank(chunk.job_id.as_str()) {
                return Err(
                    Refusal {
                        kind: RefusalKind::InvalidArgument,
                        message: "job_id is required in first chunk".to_owned(),
                    },
                );
            }
            let path = job_archive_path(chunk.job_id.as_str());
            self.job_id = Some(chunk.job_id);
            Some(path)
        } else {
            None
        };
        self.total_bytes = self.total_bytes + chunk.data.len();
        Ok(ChunkWrite { create, data: chunk.data })
    }

    /// All chunks have come.
    pub fn finish(self) -> (r: Result<Extraction, Refusal>)
        ensures
            match r {
                Ok(x) => {
                    &&& self@.job_id == Some(x.job_id@)
                    &&& x.extract_dir@ == extract_dir(x.job_id@)
                    &&& x.command@ == tar_command(archive_path(x.job_id@), extract_dir(x.job_id@))
                    &&& x.total_bytes == self@.total_bytes
                },
                Err(e) => self@.job_id is None && e@ == chunkless(),
            },
    {
        match self.job_id {
            Some(job_id) => {
                let archive = job_archive_path(job_id.as_str());
                let extract_dir = job_extract_dir(job_id.as_str());
                let mut command = "tar -xzf '".to_owned();
                command.append(archive.as_str());
                command.append("' -C '");
                command.append(extract_dir.as_str());
                command.append("'");
                Ok(Extraction { job_id, extract_dir, command, total_bytes: self.total_bytes })
            },
            None => Err(
                Refusal {
                    kind: RefusalKind::InvalidArgument,
                    message: "no chunks received".to_owned(),
                },
            ),
        }
    }
}

impl Extraction {
    /// What to log and to answer when the unpacking has ended: `success` says
    /// how, and `status` how the shell calls it.
    pub fn conclude(self, success: bool, status: &str) -> (r: UploadOutcome)
        ensures
            r.ack.job_id == self.job_id,
            r.ack.ok == success,
            r.ack.message@ == if success {
                "uploaded and extracted to "@ + self.extract_dir@
            } else {
                "tar failed: "@ + status@
            },
            match r.log {
                Some(line) => success && line@ == "[upload] job="@ + self.job_id@
                    + " extracted to "@ + self.extract_dir@ + " ("@ + text::decimal(
                    self.total_bytes as nat,
                ) + " bytes)"@,
                None => !success,
            },
    {
        if !success {
            let mut message = "tar failed: ".to_owned();
            message.append(status);
            return UploadOutcome {
                log: None,
                ack: UploadAck { job_id: self.job_id, ok: false, message },
            };
        }
        let mut line = "[upload] job=".to_owned();
        line.append(self.job_id.as_str());
        line.append(" extracted to ");
        line.append(self.extract_dir.as_str());
        line.append(" (");
        line.append(text::decimal_text(self.total_bytes as u64).as_str());
        line.append(" bytes)");
        let mut message = "uploaded and extracted to ".to_owned();
        message.append(self.extract_dir.as_str());
        UploadOutcome { log: Some(line), ack: UploadAck { job_id: self.job_id, ok: true, message } }
    }
}

/// The value of an `Extraction`.
#[verifier::ext_equal]
pub struct ExtractionModel {
    pub job_id: Seq<char>,
    pub extract_dir: Seq<char>,
    pub command: Seq<char>,
    pub total_bytes: nat,
}

impl View for Extraction {
    type V = ExtractionModel;

    open spec fn view(&self) -> ExtractionModel {
        ExtractionModel {
            job_id: self.job_id@,
            extract_dir: self.extract_dir@,
            command: self.command@,
            total_bytes: self.total_bytes as nat,
        }
    }
}

/// The value of an `UploadOutcome`.
#[verifier::ext_equal]
pub struct OutcomeModel {
    pub log: Option<Seq<char>>,
    pub job_id: Seq<char>,
    pub ok: bool,
    pub message: Seq<char>,
}

impl View for UploadOutcome {
    type V = OutcomeModel;

    open spec fn view(&self) -> OutcomeModel {
        OutcomeModel {
            log: match self.log {
                Some(line) => Some(line@),
                None => None,
            },
            job_id: self.ack.job_id@,
            ok: self.ack.ok,
            message: self.ack.message@,
        }
    }
}

impl ExtractionModel {
    /// The unpacking of the archive of a job, of the given size.
    pub open spec fn of(job_id: Seq<char>, total_bytes: nat) -> Self {
        ExtractionModel {
            job_id,
            extract_dir: extract_dir(job_id),
            command: tar_command(archive_path(job_id), extract_dir(job_id)),
            total_bytes,
        }
    }

    /// What is logged and answered when the unpacking has ended.
    pub open spec fn outcome(self, success: bool, status: Seq<char>) -> OutcomeModel {
        OutcomeModel {
            log: if success {
                Some(
                    "[upload] job="@ + self.job_id + " extracted to "@ + self.extract_dir + " ("@
                        + text::decimal(self.total_bytes) + " bytes)"@,
                )
            } else {
                None
            },
            job_id: self.job_id,
            ok: success,
            message: if success {
                "uploaded and extracted to "@ + self.extract_dir
            } else {
                "tar failed: "@ + status
            },
        }
    }
}

/// What came of the last thing the upload asked for.
#[derive(Debug)]
pub enum UploadEvent {
    /// It was done.
    Done,
    /// It failed, for this reason.
    Failed(String),
    /// A chunk was read.
    Received(ProjectChunk),
    /// There are no more chunks to read.
    Ended,
    /// The unpacking ended.
    Exited { success: bool, status: String },
}

/// The value of an `UploadEvent`.
pub enum UploadEventModel {
    Done,
    Failed(Seq<char>),
    Received(ChunkModel),
    Ended,
    Exited { success: bool, status: Seq<char> },
}

impl View for UploadEvent {
    type V = UploadEventModel;

    open spec fn view(&self) -> UploadEventModel {
        match self {
            UploadEvent::Done => UploadEventModel::Done,
            UploadEvent::Failed(why) => UploadEventModel::Failed(why@),
            UploadEvent::Received(chunk) => UploadEventModel::Received(chunk@),
            UploadEvent::Ended => UploadEventModel::Ended,
            UploadEvent::Exited { success, status } => UploadEventModel::Exited {
                success: *success,
                status: status@,
            },
        }
    }
}

/// What the upload asks for next. The last two end it.
#[derive(Debug, PartialEq, Eq)]
pub enum UploadAction {
    CreateStore,
    Read,
    CreateArchive { path: String },
    Write { data: Vec<u8> },
    /// Close the archive and create the directory.
    CreateExtractDir { path: String },
    RunTar { command: String },
    Refuse(Refusal),
    Answer(UploadOutcome),
}

/// The value of an `UploadAction`.
#[verifier::ext_equal]
pub enum UploadActionModel {
    CreateStore,
    Read,
    CreateArchive { path: Seq<char> },
    Write { data: Seq<u8> },
    CreateExtractDir { path: Seq<char> },
    RunTar { command: Seq<char> },
    Refuse(RefusalModel),
    Answer(OutcomeModel),
}

impl View for UploadAction {
    type V = UploadActionModel;

    open spec fn view(&self) -> UploadActionModel {
        match self {
            UploadAction::CreateStore => UploadActionModel::CreateStore,
            UploadAction::Read => UploadActionModel::Read,
            UploadAction::CreateArchive { path } => UploadActionModel::CreateArchive {
                path: path@,
            },
            UploadAction::Write { data } => UploadActionModel::Write { data: data@ },
            UploadAction::CreateExtractDir { path } => UploadActionModel::CreateExtractDir {
                path: path@,
            },
            UploadAction::RunTar { command } => UploadActionModel::RunTar { command: command@ },
            UploadAction::Refuse(refusal) => UploadActionModel::Refuse(refusal@),
            UploadAction::Answer(outcome) => UploadActionModel::Answer(outcome@),
        }
    }
}

/// An upload from its first stage to its answer: which stage is under way.
#[derive(Debug)]
pub enum Upload {
    /// The store is being created.
    Preparing,
    /// A chunk is being read.
    Receiving(UploadSession),
    /// The archive is being created, for this data.
    Creating { session: UploadSession, data: Vec<u8> },
    /// The data of a chunk is being written.
    Writing(UploadSession),
    /// The directory is being created.
    Placing(Extraction),
    /// The archive is being unpacked.
    Unpacking(Extraction),
    /// The upload has been refused or answered.
    Over,
}

/// The value of an `Upload`.
#[verifier::ext_equal]
pub enum UploadModel {
    Preparing,
    Receiving(SessionModel),
    Creating { session: SessionModel, data: Seq<u8> },
    Writing(SessionModel),
    Placing(ExtractionModel),
    Unpacking(ExtractionModel),
    Over,
}

impl View for Upload {
    type V = UploadModel;

    open spec fn view(&self) -> UploadModel {
        match self {
            Upload::Preparing => UploadModel::Preparing,
            Upload::Receiving(session) => UploadModel::Receiving(session@),
            Upload::Creating { session, data } => UploadModel::Creating {
                session: session@,
                data: data@,
            },
            Upload::Writing(session) => UploadModel::Writing(session@),
            Upload::Placing(extraction) => UploadModel::Placing(extraction@),
            Upload::Unpacking(extraction) => UploadModel::Unpacking(extraction@),
            Upload::Over => UploadModel::Over,
        }
    }
}

impl UploadModel {
    /// The stage that is under way.
    pub open spec fn stage(self) -> Option<UploadStage> {
        match self {
            UploadModel::Preparing => Some(UploadStage::CreateStore),
            UploadModel::Receiving(_) => Some(UploadStage::Receive),
            UploadModel::Creating { .. } => Some(UploadStage::CreateArchive),
            UploadModel::Writing(_) => Some(UploadStage::WriteArchive),
            UploadModel::Placing(_) => Some(UploadStage::CreateExtractDir),
            UploadModel::Unpacking(_) => Some(UploadStage::RunTar),
            UploadModel::Over => None,
        }
    }

    /// The upload is over, with the given refusal.
    pub open spec fn refused(refusal: RefusalModel) -> Option<(Self, UploadActionModel)> {
        Some((UploadModel::Over, UploadActionModel::Refuse(refusal)))
    }

    /// A failure of the stage under way ends the upload.
    pub open spec fn on_failed(self, why: Seq<char>) -> Option<(Self, UploadActionModel)> {
        match self.stage() {
            Some(stage) => Self::refused(
                RefusalModel { kind: RefusalKind::Internal, message: stage.complaint() + why },
            ),
            None => None,
        }
    }

    /// The stage under way is done, and the next one begins.
    pub open spec fn on_done(self) -> Option<(Self, UploadActionModel)> {
        match self {
            UploadModel::Preparing => Some(
                (UploadModel::Receiving(SessionModel::empty()), UploadActionModel::Read),
            ),
            UploadModel::Creating { session, data } => Some(
                (UploadModel::Writing(session), UploadActionModel::Write { data }),
            ),
            UploadModel::Writing(session) => Some(
                (UploadModel::Receiving(session), UploadActionModel::Read),
            ),
            UploadModel::Placing(extraction) => Some(
                (
                    UploadModel::Unpacking(extraction),
                    UploadActionModel::RunTar { command: extraction.command },
                ),
            ),
            _ => None,
        }
    }

    /// A chunk has come. The first one starts the archive; each is written
    /// before the next is read.
    pub open spec fn on_received(self, chunk: ChunkModel) -> Option<(Self, UploadActionModel)> {
        match self {
            UploadModel::Receiving(session) => {
                if session.total_bytes + chunk.data.len() > usize::MAX {
                    None
                } else if session.refuses(chunk) {
                    Self::refused(nameless())
                } else {
                    match session.write(chunk).create {
                        Some(path) => Some(
                            (
                                UploadModel::Creating {
                                    session: session.received(chunk),
                                    data: chunk.data,
                                },
                                UploadActionModel::CreateArchive { path },
                            ),
                        ),
                        None => Some(
                            (
                                UploadModel::Writing(session.received(chunk)),
                                UploadActionModel::Write { data: chunk.data },
                            ),
                        ),
                    }
                }
            },
            _ => None,
        }
    }

    /// All chunks have come: the archive is to be unpacked.
    pub open spec fn on_ended(self) -> Option<(Self, UploadActionModel)> {
        match self {
            UploadModel::Receiving(session) => match session.job_id {
                Some(id) => {
                    let extraction = ExtractionModel::of(id, session.total_bytes);
                    Some(
                        (
                            UploadModel::Placing(extraction),
                            UploadActionModel::CreateExtractDir { path: extraction.extract_dir },
                        ),
                    )
                },
                None => Self::refused(chunkless()),
            },
            _ => None,
        }
    }

    /// The unpacking has ended, and the upload is answered.
    pub open spec fn on_exited(self, success: bool, status: Seq<char>) -> Option<
        (Self, UploadActionModel),
    > {
        match self {
            UploadModel::Unpacking(extraction) => Some(
                (UploadModel::Over, UploadActionModel::Answer(extraction.outcome(success, status))),
            ),
            _ => None,
        }
    }

    /// The upload after `ev`, and what it asks for next; nothing where the stage
    /// under way cannot come to that, or the bytes cannot be counted any more.
    pub open spec fn next(self, ev: UploadEventModel) -> Option<(Self, UploadActionModel)> {
        match ev {
            UploadEventModel::Done => self.on_done(),
            UploadEventModel::Failed(why) => self.on_failed(why),
            UploadEventModel::Received(chunk) => self.on_received(chunk),
            UploadEventModel::Ended => self.on_ended(),
            UploadEventModel::Exited { success, status } => self.on_exited(success, status),
        }
    }
}

/// The value of what a step of an upload gives.
pub open spec fn step_model(r: Option<(Upload, UploadAction)>) -> Option<
    (UploadModel, UploadActionModel),
> {
    match r {
        Some((upload, action)) => Some((upload@, action@)),
        None => None,
    }
}

impl Upload {
    /// An upload begins by creating the store.
    pub fn new() -> (r: (Self, UploadAction))
        ensures
            r.0@ == UploadModel::Preparing,
            r.1@ == UploadActionModel::CreateStore,
    {
        (Upload::Preparing, UploadAction::CreateStore)
    }

    /// Takes in what came of the last step and says what is next.
    pub fn step(self, ev: UploadEvent) -> (r: Option<(Upload, UploadAction)>)
        ensures
            step_model(r) == self@.next(ev@),
    {
        match ev {
            UploadEvent::Done => self.done(),
            UploadEvent::Failed(why) => self.failed(why.as_str()),
            UploadEvent::Received(chunk) => match self {
                Upload::Receiving(session) => Self::take_in(session, chunk),
                _ => None,
            },
            UploadEvent::Ended => match self {
                Upload::Receiving(session) => match session.finish() {
                    Ok(extraction) => {
                        let path = extraction.extract_dir.clone();
                        Some(
                            (Upload::Placing(extraction), UploadAction::CreateExtractDir { path }),
                        )
                    },
                    Err(refusal) => Some((Upload::Over, UploadAction::Refuse(refusal))),
                },
                _ => None,
            },
            UploadEvent::Exited { success, status } => match self {
                Upload::Unpacking(extraction) => {
                    let outcome = extraction.conclude(success, status.as_str());
                    Some((Upload::Over, UploadAction::Answer(outcome)))
                },
                _ => None,
            },
        }
    }

    fn done(self) -> (r: Option<(Upload, UploadAction)>)
        ensures
            step_model(r) == self@.on_done(),
    {
        match self {
            Upload::Preparing => Some(
                (Upload::Receiving(UploadSession::new()), UploadAction::Read),
            ),
            Upload::Creating { session, data } => Some(
                (Upload::Writing(session), UploadAction::Write { data }),
            ),
            Upload::Writing(session) => Some((Upload::Receiving(session), UploadAction::Read)),
            Upload::Placing(extraction) => {
                let command = extraction.command.clone();
                Some((Upload::Unpacking(extraction), UploadAction::RunTar { command }))
            },
            _ => None,
        }
    }

    fn failed(self, why: &str) -> (r: Option<(Upload, UploadAction)>)
        ensures
            step_model(r) == self@.on_failed(why@),
    {
        let stage = match self {
            Upload::Preparing => UploadStage::CreateStore,
            Upload::Receiving(_) => UploadStage::Receive,
            Upload::Creating { .. } => UploadStage::CreateArchive,
            Upload::Writing(_) => UploadStage::WriteArchive,
            Upload::Placing(_) => UploadStage::CreateExtractDir,
            Upload::Unpacking(_) => UploadStage::RunTar,
            Upload::Over => {
                return None;
            },
        };
        Some((Upload::Over, UploadAction::Refuse(stage.refusal(why))))
    }

    fn take_in(session: UploadSession, chunk: ProjectChunk) -> (r: Option<(Upload, UploadAction)>)
        ensures
            step_model(r) == UploadModel::Receiving(session@).on_received(chunk@),
    {
        let mut session = session;
        if chunk.data.len() > usize::MAX - session.total_bytes {
            return None;
        }
        match session.receive(chunk) {
            Ok(write) => match write.create {
                Some(path) => Some(
                    (
                        Upload::Creating { session, data: write.data },
                        UploadAction::CreateArchive { path },
                    ),
                ),
                None => Some(
                    (Upload::Writing(session), UploadAction::Write { data: write.data }),
                ),
            },
            Err(refusal) => Some((Upload::Over, UploadAction::Refuse(refusal))),
        }
    }
}

} // verus!
