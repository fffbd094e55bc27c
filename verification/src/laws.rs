//! What holds of the library as a whole.
use vstd::prelude::*;
use vstd::utf8::*;

use crate::app;
use crate::app::AppModel;
use crate::app::Focus;
use crate::app::MAX_LOG_LINES;
use crate::app::PROMPT;
use crate::client;
use crate::client::CHUNK_BYTES;
use crate::clock;
use crate::clock::TerminalInput;
use crate::command;
use crate::command::CommandModel;
use crate::edit;
use crate::event::ActionModel;
use crate::event::EventModel;
use crate::event::Key;
use crate::event::KeyEvent;
use crate::feed;
use crate::feed::FeedAction;
use crate::feed::FeedEventModel;
use crate::status::NodeStatusModel;
use crate::task;
use crate::task::Task;
use crate::text;
use crate::upload;
use crate::upload::ExtractionModel;
use crate::upload::RefusalKind;
use crate::upload::RefusalModel;
use crate::upload::SessionModel;
use crate::upload::UploadActionModel;
use crate::upload::UploadEventModel;
use crate::upload::UploadModel;
use crate::upload::WriteModel;
use crate::wire::ChunkModel;
use crate::wire::UpdateModel;
use crate::worker::StateModel;
use crate::worker::StreamActionModel;
use crate::worker::StreamEventModel;
use crate::worker::StreamModel;

verus! {

// ---- uploads ----

/// None of the chunks is refused when they are received in turn.
pub open spec fn all_taken(s: SessionModel, chunks: Seq<ChunkModel>) -> bool
    decreases chunks.len(),
{
    if chunks.len() == 0 {
        true
    } else {
        all_taken(s, chunks.drop_last()) && !after_chunks(s, chunks.drop_last()).refuses(
            chunks.last(),
        )
    }
}

/// The upload after the chunks have been received in turn.
pub open spec fn after_chunks(s: SessionModel, chunks: Seq<ChunkModel>) -> SessionModel
    decreases chunks.len(),
{
    if chunks.len() == 0 {
        s
    } else {
        after_chunks(s, chunks.drop_last()).received(chunks.last())
    }
}

/// What is to be written when the chunks are received in turn.
pub open spec fn writes(s: SessionModel, chunks: Seq<ChunkModel>) -> Seq<WriteModel>
    decreases chunks.len(),
{
    if chunks.len() == 0 {
        Seq::empty()
    } else {
        writes(s, chunks.drop_last()).push(
            after_chunks(s, chunks.drop_last()).write(chunks.last()),
        )
    }
}

/// The data of the writes, one after the other.
pub open spec fn written(ws: Seq<WriteModel>) -> Seq<u8>
    decreases ws.len(),
{
    if ws.len() == 0 {
        Seq::empty()
    } else {
        written(ws.drop_last()) + ws.last().data
    }
}

/// The pieces of an archive are full but for the last, and none is empty.
pub proof fn law_pieces_are_full(data: Seq<u8>)
    ensures
        data.len() == 0 <==> client::pieces(data).len() == 0,
        forall|i: int|
            0 <= i < client::pieces(data).len() ==> 1 <= (#[trigger] client::pieces(data)[i]).len()
                <= CHUNK_BYTES,
        forall|i: int|
            0 <= i < client::pieces(data).len() - 1 ==> (#[trigger] client::pieces(data)[i]).len()
                == CHUNK_BYTES,
    decreases data.len(),
{
    if data.len() > CHUNK_BYTES {
        let rest = data.skip(CHUNK_BYTES as int);
        law_pieces_are_full(rest);
        let ps = client::pieces(data);
        let qs = client::pieces(rest);
        assert(forall|i: int| 1 <= i < ps.len() ==> #[trigger] ps[i] == qs[i - 1]);
    }
}

/// `parts`, one after the other.
pub open spec fn joined(parts: Seq<Seq<u8>>) -> Seq<u8>
    decreases parts.len(),
{
    if parts.len() == 0 {
        Seq::empty()
    } else {
        parts[0] + joined(parts.skip(1))
    }
}

/// The pieces of an archive, one after the other, are the archive.
pub proof fn law_pieces_join(data: Seq<u8>)
    ensures
        joined(client::pieces(data)) == data,
    decreases data.len(),
{
    reveal_with_fuel(joined, 2);
    let ps = client::pieces(data);
    if data.len() == 0 {
        assert(joined(ps) =~= data);
    } else if data.len() <= CHUNK_BYTES {
        assert(ps.skip(1) =~= Seq::empty());
        assert(joined(ps) =~= data);
    } else {
        let rest = data.skip(CHUNK_BYTES as int);
        law_pieces_join(rest);
        assert(ps.skip(1) =~= client::pieces(rest));
        assert(joined(ps) =~= data);
    }
}

proof fn lemma_joined_push(parts: Seq<Seq<u8>>, last: Seq<u8>)
    ensures
        joined(parts.push(last)) == joined(parts) + last,
    decreases parts.len(),
{
    reveal_with_fuel(joined, 2);
    if parts.len() == 0 {
        assert(parts.push(last).skip(1) =~= Seq::empty());
        assert(joined(parts.push(last)) =~= joined(parts) + last);
    } else {
        assert(parts.push(last).skip(1) =~= parts.skip(1).push(last));
        lemma_joined_push(parts.skip(1), last);
        assert(joined(parts.push(last)) =~= joined(parts) + last);
    }
}

/// The data of the chunks, one after the other.
pub open spec fn carried(chunks: Seq<ChunkModel>) -> Seq<u8> {
    joined(Seq::new(chunks.len(), |i: int| chunks[i].data))
}

/// The data of one chunk more.
pub proof fn lemma_carried(chunks: Seq<ChunkModel>)
    requires
        chunks.len() > 0,
    ensures
        carried(chunks) == carried(chunks.drop_last()) + chunks.last().data,
{
    let fewer = chunks.drop_last();
    let parts = Seq::new(fewer.len(), |i: int| fewer[i].data);
    assert(Seq::new(chunks.len(), |i: int| chunks[i].data) =~= parts.push(chunks.last().data));
    lemma_joined_push(parts, chunks.last().data);
}

/// Chunks of which the first names a job, received in turn: what is written is
/// their data, the archive is created once, and the job and the size are known
/// at the end.
pub proof fn lemma_receive(chunks: Seq<ChunkModel>)
    requires
        chunks.len() > 0 ==> !text::blank(chunks[0].job_id),
    ensures
        ({
            let s = SessionModel::empty();
            &&& all_taken(s, chunks)
            &&& writes(s, chunks).len() == chunks.len()
            &&& written(writes(s, chunks)) == carried(chunks)
            &&& after_chunks(s, chunks).total_bytes == carried(chunks).len()
            &&& after_chunks(s, chunks).job_id == (if chunks.len() == 0 {
                None
            } else {
                Some(chunks[0].job_id)
            })
            &&& forall|i: int|
                0 <= i < writes(s, chunks).len() ==> (#[trigger] writes(s, chunks)[i]).create == (
                if i == 0 {
                    Some(upload::archive_path(chunks[0].job_id))
                } else {
                    None
                })
        }),
    decreases chunks.len(),
{
    let s = SessionModel::empty();
    if chunks.len() > 0 {
        let prior = chunks.drop_last();
        lemma_receive(prior);
        lemma_carried(chunks);
        let ws = writes(s, chunks);
        assert(ws.drop_last() =~= writes(s, prior));
        assert forall|i: int| 0 <= i < ws.len() implies (#[trigger] ws[i]).create == (if i == 0 {
            Some(upload::archive_path(chunks[0].job_id))
        } else {
            None
        }) by {
            if i < ws.len() - 1 {
                assert(ws[i] == writes(s, prior)[i]);
            }
        }
    }
}

/// The chunks of an archive carry the archive.
proof fn lemma_chunked(job_id: Seq<char>, data: Seq<u8>)
    ensures
        carried(client::chunked(job_id, data)) == data,
        data.len() > 0 <==> client::chunked(job_id, data).len() > 0,
{
    let chunks = client::chunked(job_id, data);
    law_pieces_are_full(data);
    law_pieces_join(data);
    assert(Seq::new(chunks.len(), |i: int| chunks[i].data) =~= client::pieces(data));
}

/// What the console sends is what the node stores: the chunks of a non-empty
/// archive of a named job are all taken, the archive of that job is created
/// once, at the first of them, what is written into it is the archive sent,
/// byte for byte, and the job and the number of bytes come out right.
pub proof fn law_upload_arrives(job_id: Seq<char>, data: Seq<u8>)
    requires
        data.len() > 0,
        !text::blank(job_id),
    ensures
        ({
            let chunks = client::chunked(job_id, data);
            let s = SessionModel::empty();
            &&& all_taken(s, chunks)
            &&& writes(s, chunks).len() == chunks.len() > 0
            &&& writes(s, chunks)[0].create == Some(upload::archive_path(job_id))
            &&& forall|i: int|
                1 <= i < writes(s, chunks).len() ==> (#[trigger] writes(s, chunks)[i]).create
                    is None
            &&& written(writes(s, chunks)) == data
            &&& after_chunks(s, chunks) == (SessionModel {
                job_id: Some(job_id),
                total_bytes: data.len(),
            })
        }),
{
    lemma_chunked(job_id, data);
    lemma_receive(client::chunked(job_id, data));
}

/// An empty archive is sent as no chunks at all, and the node is left without a
/// job; an archive of a job without a name is refused at its first chunk.
pub proof fn law_upload_refused(job_id: Seq<char>, data: Seq<u8>)
    ensures
        data.len() == 0 ==> client::chunked(job_id, data).len() == 0 && after_chunks(
            SessionModel::empty(),
            client::chunked(job_id, data),
        ).job_id is None,
        data.len() > 0 && text::blank(job_id) ==> SessionModel::empty().refuses(
            client::chunked(job_id, data)[0],
        ),
{
    law_pieces_are_full(data);
}

/// The job of an upload is never blank, from the first chunk on.
pub proof fn law_upload_stays_named(s: SessionModel, chunk: ChunkModel)
    requires
        s.named(),
        !s.refuses(chunk),
    ensures
        s.received(chunk).named(),
        s.received(chunk).job_id is Some,
        s.job_id is Some ==> s.received(chunk).job_id == s.job_id,
{
}

/// Where an upload stands after `events`, and what it asks for; nothing where
/// one of them could not come.
pub open spec fn run(events: Seq<UploadEventModel>) -> Option<(UploadModel, UploadActionModel)>
    decreases events.len(),
{
    if events.len() == 0 {
        Some((UploadModel::Preparing, UploadActionModel::CreateStore))
    } else {
        match run(events.drop_last()) {
            Some((upload, _)) => upload.next(events.last()),
            None => None,
        }
    }
}

/// What an upload has asked to write in the course of `events`.
pub open spec fn stored(events: Seq<UploadEventModel>) -> Seq<u8>
    decreases events.len(),
{
    if events.len() == 0 {
        Seq::empty()
    } else {
        stored(events.drop_last()) + match run(events) {
            Some((_, UploadActionModel::Write { data })) => data,
            _ => Seq::empty(),
        }
    }
}

/// The events of an upload of which every stage succeeds, up to the last chunk.
pub open spec fn smooth(chunks: Seq<ChunkModel>) -> Seq<UploadEventModel>
    decreases chunks.len(),
{
    if chunks.len() == 0 {
        seq![UploadEventModel::Done]
    } else {
        let arrived = smooth(chunks.drop_last()).push(UploadEventModel::Received(chunks.last()));
        if chunks.len() == 1 {
            arrived.push(UploadEventModel::Done).push(UploadEventModel::Done)
        } else {
            arrived.push(UploadEventModel::Done)
        }
    }
}

/// A stage that fails ends the upload, which is refused with the reason.
pub proof fn law_failed_stage_refuses(upload: UploadModel, why: Seq<char>)
    requires
        !(upload is Over),
    ensures
        upload.stage() is Some,
        upload.next(UploadEventModel::Failed(why)) == Some(
            (
                UploadModel::Over,
                UploadActionModel::Refuse(
                    RefusalModel {
                        kind: RefusalKind::Internal,
                        message: upload.stage()->0.complaint() + why,
                    },
                ),
            ),
        ),
{
}

/// An upload is refused or answered once, and that is the end of it: nothing
/// comes after.
pub proof fn law_upload_ends_once(upload: UploadModel, ev: UploadEventModel)
    ensures
        UploadModel::Over.next(ev) is None,
        upload.next(ev) matches Some((after, action)) ==> (after is Over <==> action is Refuse
            || action is Answer),
{
}

/// An upload that still goes on has seen no stage fail.
pub proof fn law_no_stage_failed_before(events: Seq<UploadEventModel>, i: int)
    requires
        run(events) matches Some((upload, _)) && !(upload is Over),
        0 <= i < events.len(),
    ensures
        !(events[i] is Failed),
    decreases events.len(),
{
    if i < events.len() - 1 {
        law_no_stage_failed_before(events.drop_last(), i);
        assert(events.drop_last()[i] == events[i]);
    }
}

/// The directory is created only when all chunks have come, the archive is
/// unpacked only when the directory is there, and the upload is answered only
/// when the unpacking has ended.
pub proof fn law_unpacking_comes_last(events: Seq<UploadEventModel>)
    ensures
        run(events) matches Some((_, UploadActionModel::CreateExtractDir { .. })) ==> {
            &&& events.len() >= 1
            &&& events.last() is Ended
            &&& run(events.drop_last()) matches Some((upload, _)) && upload is Receiving
        },
        run(events) matches Some((_, UploadActionModel::RunTar { .. })) ==> {
            &&& events.len() >= 2
            &&& events.last() is Done
            &&& run(events.drop_last()) matches Some((_, UploadActionModel::CreateExtractDir { .. }))
            &&& events[events.len() - 2] is Ended
        },
        run(events) matches Some((_, UploadActionModel::Answer(_))) ==> {
            &&& events.len() >= 3
            &&& events.last() is Exited
            &&& run(events.drop_last()) matches Some((_, UploadActionModel::RunTar { .. }))
        },
{
    lemma_placing(events);
    if events.len() > 0 {
        lemma_placing(events.drop_last());
        if events.len() > 1 {
            lemma_placing(events.drop_last().drop_last());
        }
    }
}

/// What an upload has just asked for where it stands before or in the unpacking.
proof fn lemma_placing(events: Seq<UploadEventModel>)
    ensures
        run(events) matches Some((upload, action)) ==> {
            &&& upload is Placing <==> action is CreateExtractDir
            &&& upload is Unpacking <==> action is RunTar
            &&& upload is Placing ==> events.len() >= 1 && events.last() is Ended
            &&& upload is Unpacking ==> events.len() >= 1 && events.last() is Done
        },
{
}

/// The run of one event more.
pub proof fn lemma_run_push(events: Seq<UploadEventModel>, ev: UploadEventModel)
    requires
        run(events) is Some,
    ensures
        run(events.push(ev)) == (run(events)->0).0.next(ev),
        stored(events.push(ev)) == stored(events) + match (run(events)->0).0.next(ev) {
            Some((_, UploadActionModel::Write { data })) => data,
            _ => Seq::empty(),
        },
{
    assert(events.push(ev).drop_last() =~= events);
}

/// The upload of chunks of which the first names a job, each stage succeeding.
pub proof fn lemma_smooth(chunks: Seq<ChunkModel>)
    requires
        chunks.len() > 0 ==> !text::blank(chunks[0].job_id),
        carried(chunks).len() <= usize::MAX,
    ensures
        run(smooth(chunks)) == Some(
            (
                UploadModel::Receiving(after_chunks(SessionModel::empty(), chunks)),
                UploadActionModel::Read,
            ),
        ),
        stored(smooth(chunks)) == carried(chunks),
    decreases chunks.len(),
{
    let s = SessionModel::empty();
    let done = UploadEventModel::Done;
    if chunks.len() == 0 {
        let none = Seq::<UploadEventModel>::empty();
        lemma_run_push(none, done);
        assert(none.push(done) =~= smooth(chunks));
        assert(stored(smooth(chunks)) =~= carried(chunks));
    } else {
        let prior = chunks.drop_last();
        lemma_carried(chunks);
        lemma_smooth(prior);
        lemma_receive(prior);
        let session = after_chunks(s, prior);
        let chunk = chunks.last();
        let arrived = smooth(prior).push(UploadEventModel::Received(chunk));
        lemma_run_push(smooth(prior), UploadEventModel::Received(chunk));
        assert(after_chunks(s, chunks) == session.received(chunk));
        lemma_run_push(arrived, done);
        if chunks.len() == 1 {
            lemma_run_push(arrived.push(done), done);
        }
        assert(stored(smooth(chunks)) =~= carried(chunks));
    }
}

/// The upload of a job goes through to its end after the chunks have been read
/// as `sent` says: all of `data` is written, then the directory of the job is
/// created, the archive unpacked into it, and the upload answered.
pub open spec fn carried_out(
    sent: Seq<UploadEventModel>,
    job_id: Seq<char>,
    data: Seq<u8>,
    success: bool,
    status: Seq<char>,
) -> bool {
    let ended = sent.push(UploadEventModel::Ended);
    let placed = ended.push(UploadEventModel::Done);
    let exited = placed.push(UploadEventModel::Exited { success, status });
    let extraction = ExtractionModel::of(job_id, data.len());
    &&& run(sent) == Some(
        (
            UploadModel::Receiving(SessionModel { job_id: Some(job_id), total_bytes: data.len() }),
            UploadActionModel::Read,
        ),
    )
    &&& run(ended) == Some(
        (
            UploadModel::Placing(extraction),
            UploadActionModel::CreateExtractDir { path: upload::extract_dir(job_id) },
        ),
    )
    &&& run(placed) == Some(
        (
            UploadModel::Unpacking(extraction),
            UploadActionModel::RunTar {
                command: upload::tar_command(
                    upload::archive_path(job_id),
                    upload::extract_dir(job_id),
                ),
            },
        ),
    )
    &&& run(exited) == Some(
        (UploadModel::Over, UploadActionModel::Answer(extraction.outcome(success, status))),
    )
    &&& stored(sent) == data
    &&& stored(exited) == data
}

/// An upload that meets no failure is carried out, however it is cut into chunks
/// and whatever the chunks after the first name as their job: what is written
/// and answered depends on the job that the first one names and on the data of
/// all of them, one after the other.
pub proof fn law_upload_is_carried_out(
    chunks: Seq<ChunkModel>,
    success: bool,
    status: Seq<char>,
)
    requires
        chunks.len() > 0,
        !text::blank(chunks[0].job_id),
        carried(chunks).len() <= usize::MAX,
    ensures
        carried_out(smooth(chunks), chunks[0].job_id, carried(chunks), success, status),
{
    let sent = smooth(chunks);
    let ended = sent.push(UploadEventModel::Ended);
    let placed = ended.push(UploadEventModel::Done);
    lemma_receive(chunks);
    lemma_smooth(chunks);
    lemma_run_push(sent, UploadEventModel::Ended);
    lemma_run_push(ended, UploadEventModel::Done);
    lemma_run_push(placed, UploadEventModel::Exited { success, status });
    assert(stored(placed.push(UploadEventModel::Exited { success, status })) =~= carried(chunks));
}

/// What the console sends of a non-empty archive of a named job is carried out:
/// the archive is written as it was, and unpacked for that job.
pub proof fn law_console_upload_is_carried_out(
    job_id: Seq<char>,
    data: Seq<u8>,
    success: bool,
    status: Seq<char>,
)
    requires
        0 < data.len() <= usize::MAX,
        !text::blank(job_id),
    ensures
        carried_out(smooth(client::chunked(job_id, data)), job_id, data, success, status),
{
    lemma_chunked(job_id, data);
    law_upload_is_carried_out(client::chunked(job_id, data), success, status);
}

/// Two jobs never share an archive, nor a directory.
pub proof fn law_job_paths_differ(a: Seq<char>, b: Seq<char>)
    requires
        a != b,
    ensures
        upload::archive_path(a) != upload::archive_path(b),
        upload::extract_dir(a) != upload::extract_dir(b),
{
    let n = "/tmp/fluxa/"@.len() as int;
    let k = ".tar.gz"@.len() as int;
    if upload::extract_dir(a) == upload::extract_dir(b) {
        assert(a =~= upload::extract_dir(a).skip(n));
        assert(b =~= upload::extract_dir(b).skip(n));
    }
    if upload::archive_path(a) == upload::archive_path(b) {
        let p = upload::archive_path(a);
        assert(a =~= p.subrange(n, p.len() - k));
        assert(b =~= p.subrange(n, p.len() - k));
    }
}

// ---- the log ----

/// The console after `lines` have been logged in turn.
pub open spec fn logged_all(m: AppModel, lines: Seq<Seq<char>>) -> AppModel
    decreases lines.len(),
{
    if lines.len() == 0 {
        m
    } else {
        logged_all(m, lines.drop_last()).logged(lines.last())
    }
}

/// The lines that are not empty.
pub open spec fn told_lines(lines: Seq<Seq<char>>) -> Seq<Seq<char>> {
    lines.filter(|l: Seq<char>| l.len() > 0)
}

/// However many lines are logged, the log holds the last of those that are not
/// empty, in the order in which they came.
pub proof fn law_log_keeps_the_last(m: AppModel, lines: Seq<Seq<char>>)
    requires
        m.wf(),
    ensures
        logged_all(m, lines).logs == app::last_lines(m.logs + told_lines(lines)),
        logged_all(m, lines).logs.len() <= MAX_LOG_LINES,
    decreases lines.len(),
{
    reveal(Seq::filter);
    if lines.len() == 0 {
        assert(m.logs + told_lines(lines) =~= m.logs);
    } else {
        let fewer = lines.drop_last();
        let last = lines.last();
        law_log_keeps_the_last(m, fewer);
        let all = m.logs + told_lines(fewer);
        if last.len() > 0 {
            assert(told_lines(lines) =~= told_lines(fewer).push(last));
            assert(m.logs + told_lines(lines) =~= all.push(last));
            assert(app::last_lines(app::last_lines(all).push(last)) =~= app::last_lines(
                all.push(last),
            ));
        } else {
            assert(told_lines(lines) =~= told_lines(fewer));
        }
    }
}

/// Logging leaves the view alone while the console does not follow the log, and
/// touches nothing but log and view in any case.
pub proof fn law_logging_leaves_the_rest(m: AppModel, line: Seq<char>)
    ensures
        !m.follow_tail ==> m.logged(line).scroll == m.scroll && !m.logged(line).follow_tail,
        m.follow_tail ==> m.logged(line).follow_tail,
        m.logged(line) == (AppModel {
            logs: m.logged(line).logs,
            scroll: m.logged(line).scroll,
            ..m
        }),
{
}

/// While the console follows the log, it shows the end of it: once it is drawn,
/// the last line is the last that fits.
pub proof fn law_following_shows_the_end(m: AppModel, height: nat)
    requires
        m.wf(),
    ensures
        m.bottom().clamped(height).follow_tail,
        m.bottom().clamped(height).scroll + AppModel::visible(height) >= m.logs.len(),
        m.logs.len() >= AppModel::visible(height) ==> m.bottom().clamped(height).scroll
            + AppModel::visible(height) == m.logs.len(),
        m.logs.len() < AppModel::visible(height) ==> m.bottom().clamped(height).scroll == 0,
{
}

/// Drawing never scrolls past the end, moves a view that is within the log not
/// at all, and drawing again changes nothing more.
pub proof fn law_clamping_settles(m: AppModel, height: nat)
    requires
        m.wf(),
    ensures
        m.clamped(height).scroll <= m.max_scroll(height),
        m.scroll <= m.max_scroll(height) ==> m.clamped(height) == m,
        m.clamped(height).clamped(height) == m.clamped(height),
        m.clamped(height) == (AppModel { scroll: m.clamped(height).scroll, ..m }),
{
}

/// Scrolling down and up again by the same amount returns to the same line,
/// unless the scroll position reached its limit.
pub proof fn law_scrolling_back(m: AppModel, n: nat)
    requires
        m.scroll + n <= u16::MAX,
    ensures
        m.scrolled_down(n).scrolled_up(n).scroll == m.scroll,
        m.scroll >= n ==> m.scrolled_up(n).scrolled_down(n).scroll == m.scroll,
{
}

// ---- the command line ----

/// Backspace takes back a character that was typed, if it takes one byte.
pub proof fn law_backspace_undoes_typing(m: AppModel, c: char)
    requires
        m.can_type(c),
        edit::width(c) == 1,
    ensures
        m.typed(c).can_backspace(),
        m.typed(c).backspaced() == m,
{
    lemma_typed_apart(m, c);
}

/// So does the delete key, once the cursor is moved back over it.
pub proof fn law_delete_undoes_typing(m: AppModel, c: char)
    requires
        m.can_type(c),
        edit::width(c) == 1,
    ensures
        m.typed(c).moved_left().can_delete(),
        m.typed(c).moved_left().deleted() == m,
{
    lemma_typed_apart(m, c);
    app::lemma_typed(m, c);
}

/// What was typed splits into what preceded the cursor, and the character with
/// what followed.
proof fn lemma_typed_apart(m: AppModel, c: char)
    requires
        m.can_type(c),
    ensures
        edit::boundary(m.typed(c).input, m.cursor as int),
        edit::before(m.typed(c).input, m.cursor as int) == edit::before(m.input, m.cursor as int),
        edit::after(m.typed(c).input, m.cursor as int) == seq![c] + edit::after(
            m.input,
            m.cursor as int,
        ),
        edit::removed(m.typed(c).input, m.cursor as int) == m.input,
{
    let at = m.cursor as int;
    let a = edit::before(m.input, at);
    let b = edit::after(m.input, at);
    edit::lemma_split(m.input, at);
    assert(a.push(c) + b =~= a + (seq![c] + b));
    edit::lemma_split_concat(a, seq![c] + b);
    assert((seq![c] + b).drop_first() =~= b);
}

/// A character typed at the end of the line is its last, and the cursor stays
/// at the end.
pub proof fn law_typing_at_the_end_appends(m: AppModel, c: char)
    requires
        m.cursor == edit::byte_len(m.input),
    ensures
        edit::boundary(m.input, m.cursor as int),
        m.typed(c).input == m.input.push(c),
        m.typed(c).cursor == edit::byte_len(m.typed(c).input),
{
    let e = Seq::<char>::empty();
    assert(m.input + e =~= m.input);
    edit::lemma_split_concat(m.input, e);
    assert(m.input.push(c) + e =~= m.input.push(c));
    edit::lemma_push_width(m.input, c);
}

/// The cursor comes back where it was when it goes one way and then the other,
/// unless it was at the end it went towards.
pub proof fn law_cursor_comes_back(m: AppModel)
    requires
        m.wf(),
    ensures
        m.cursor > 0 ==> m.moved_left().moved_right() == m,
        m.cursor < edit::byte_len(m.input) ==> m.moved_right().moved_left() == m,
        m.at_home().moved_left() == m.at_home(),
        m.at_end().moved_right() == m.at_end(),
{
}

/// An ASCII console: nothing else is in the command line or in its history.
pub open spec fn plain(m: AppModel) -> bool {
    &&& is_ascii_chars(m.input)
    &&& forall|i: int| 0 <= i < m.history.len() ==> is_ascii_chars(#[trigger] m.history[i])
}

/// The event types no character but ASCII.
pub open spec fn plain_event(ev: Option<EventModel>) -> bool {
    ev matches Some(EventModel::Key(k)) ==> k.code matches Key::Char(c) ==> c as u32 <= 0x7f
}

/// On an ASCII console every ASCII event can be carried out as long as the line
/// has room, and the console stays an ASCII console.
pub proof fn law_ascii_console_takes_every_event(m: AppModel, ev: Option<EventModel>)
    requires
        m.wf(),
        plain(m),
        plain_event(ev),
        edit::byte_len(m.input) < isize::MAX / 2,
    ensures
        m.accepts(ev),
        plain(m.next(ev).0),
{
    let s = m.input;
    let at = m.cursor as int;
    edit::lemma_ascii_split(s, 0);
    edit::lemma_ascii_split(s, at);
    if at > 0 {
        edit::lemma_ascii_split(s, at - 1);
    }
    let cmd = text::trimmed(s);
    text::lemma_trim_start(s);
    text::lemma_trim_end(text::trim_start(s));
    assert(is_ascii_chars(cmd)) by {
        let t = text::trim_start(s);
        assert(forall|i: int| 0 <= i < t.len() ==> #[trigger] t[i] == s[i + (s.len() - t.len())]);
        assert(forall|i: int| 0 <= i < cmd.len() ==> #[trigger] cmd[i] == t[i]);
    }
    match ev {
        Some(EventModel::Key(k)) => {
            if m.reaches_line(k) {
                match k.code {
                    Key::Char(c) => {
                        assert(edit::width(c) == 1);
                        let r = edit::inserted(s, at, c);
                        assert(is_ascii_chars(r));
                    },
                    Key::Backspace => {
                        if at > 0 {
                            let r = edit::removed(s, at - 1);
                            assert(is_ascii_chars(r));
                        }
                    },
                    Key::Delete => {
                        if at < s.len() {
                            let r = edit::removed(s, at);
                            assert(is_ascii_chars(r));
                        }
                    },
                    Key::Enter => {
                        let h = m.submitted().history;
                        assert forall|i: int| 0 <= i < h.len() implies is_ascii_chars(
                            #[trigger] h[i],
                        ) by {
                            if i < m.history.len() {
                                assert(h[i] == m.history[i]);
                            } else {
                                assert(h[i] == cmd);
                            }
                        }
                    },
                    _ => {},
                }
            }
        },
        _ => {},
    }
}

/// Every event that can be carried out keeps what holds of every console, and
/// its target.
pub proof fn law_events_keep_the_console_sound(m: AppModel, ev: Option<EventModel>)
    requires
        m.wf(),
        m.accepts(ev),
    ensures
        m.next(ev).0.wf(),
        m.next(ev).0.target == m.target,
{
    match ev {
        Some(EventModel::StatusUpdate(_, line)) => {
            if let Some(l) = line {
                if l.len() > 0 {
                    app::lemma_last_lines(m.logs, l);
                }
            }
        },
        Some(EventModel::Key(k)) => {
            let note = "[client] Ctrl+C pressed (cancel not implemented yet)"@;
            if note.len() > 0 {
                app::lemma_last_lines(m.logs, note);
            }
            if m.reaches_line(k) {
                match k.code {
                    Key::Char(c) => app::lemma_typed(m, c),
                    Key::Backspace => if m.cursor > 0 {
                        app::lemma_removed(m.input, m.cursor - 1);
                    },
                    Key::Delete => if m.cursor < edit::byte_len(m.input) {
                        app::lemma_removed(m.input, m.cursor as int);
                    },
                    Key::Enter => {
                        text::law_trimmed(m.input);
                        let line = PROMPT@ + text::trimmed(m.input);
                        if line.len() > 0 {
                            app::lemma_last_lines(m.logs, line);
                        }
                    },
                    _ => {},
                }
            }
        },
        _ => {},
    }
}

/// The console after `evs`, one after the other.
pub open spec fn after_events(m: AppModel, evs: Seq<EventModel>) -> AppModel
    decreases evs.len(),
{
    if evs.len() == 0 {
        m
    } else {
        after_events(m, evs.drop_last()).next(Some(evs.last())).0
    }
}

/// Each of `evs` can be carried out when its turn comes.
pub open spec fn all_accepted(m: AppModel, evs: Seq<EventModel>) -> bool
    decreases evs.len(),
{
    if evs.len() == 0 {
        true
    } else {
        all_accepted(m, evs.drop_last()) && after_events(m, evs.drop_last()).accepts(
            Some(evs.last()),
        )
    }
}

/// Neither the command line nor an entry of the history is longer than `n`.
pub open spec fn lines_within(m: AppModel, n: int) -> bool {
    &&& m.input.len() <= n
    &&& forall|i: int| 0 <= i < m.history.len() ==> (#[trigger] m.history[i]).len() <= n
}

proof fn lemma_lines_grow_by_one(m: AppModel, ev: Option<EventModel>, n: int)
    requires
        m.wf(),
        plain(m),
        plain_event(ev),
        lines_within(m, n),
    ensures
        lines_within(m.next(ev).0, n + 1),
{
    let s = m.input;
    let at = m.cursor as int;
    edit::lemma_ascii_split(s, 0);
    edit::lemma_ascii_split(s, at);
    if at > 0 {
        edit::lemma_ascii_split(s, at - 1);
    }
    text::lemma_trim_start(s);
    text::lemma_trim_end(text::trim_start(s));
    let h = m.next(ev).0.history;
    assert forall|i: int| 0 <= i < h.len() implies (#[trigger] h[i]).len() <= n + 1 by {
        if i < m.history.len() {
            assert(h[i] == m.history[i]);
        }
    }
}

/// A console that is started and given nothing but ASCII can carry out every
/// event, however they follow each other, and stays sound. Only the size of the
/// address space limits their number.
pub proof fn law_ascii_session_never_breaks(target: Seq<char>, evs: Seq<EventModel>)
    requires
        forall|i: int| 0 <= i < evs.len() ==> plain_event(Some(#[trigger] evs[i])),
        evs.len() < isize::MAX / 2,
    ensures
        all_accepted(AppModel::initial(target), evs),
        after_events(AppModel::initial(target), evs).wf(),
        after_events(AppModel::initial(target), evs).target == target,
{
    lemma_ascii_session(target, evs);
}

proof fn lemma_ascii_session(target: Seq<char>, evs: Seq<EventModel>)
    requires
        forall|i: int| 0 <= i < evs.len() ==> plain_event(Some(#[trigger] evs[i])),
        evs.len() < isize::MAX / 2,
    ensures
        ({
            let m = after_events(AppModel::initial(target), evs);
            &&& all_accepted(AppModel::initial(target), evs)
            &&& m.wf()
            &&& m.target == target
            &&& plain(m)
            &&& lines_within(m, evs.len() as int)
        }),
    decreases evs.len(),
{
    if evs.len() > 0 {
        let fewer = evs.drop_last();
        let ev = Some(evs.last());
        assert forall|i: int| 0 <= i < fewer.len() implies plain_event(
            Some(#[trigger] fewer[i]),
        ) by {
            assert(fewer[i] == evs[i]);
        }
        lemma_ascii_session(target, fewer);
        let m = after_events(AppModel::initial(target), fewer);
        assert(plain_event(Some(evs[evs.len() - 1])));
        edit::lemma_ascii_split(m.input, 0);
        law_ascii_console_takes_every_event(m, ev);
        law_events_keep_the_console_sound(m, ev);
        lemma_lines_grow_by_one(m, ev, fewer.len() as int);
    }
}

// ---- the history ----

/// The console after `n` presses of the up key.
pub open spec fn ups(m: AppModel, n: nat) -> AppModel
    decreases n,
{
    if n == 0 {
        m
    } else {
        ups(m, (n - 1) as nat).recalled_up()
    }
}

/// From a line that was not recalled, the up key walks the history from its
/// newest entry to its oldest and stays there.
pub proof fn law_up_walks_the_history(m: AppModel, n: nat)
    requires
        m.history_idx is None,
        m.history.len() > 0,
        n > 0,
    ensures
        ups(m, n).history == m.history,
        n <= m.history.len() ==> ups(m, n) == m.recalled((m.history.len() - n) as nat),
        n > m.history.len() ==> ups(m, n) == m.recalled(0),
    decreases n,
{
    reveal_with_fuel(ups, 2);
    if n > 1 {
        law_up_walks_the_history(m, (n - 1) as nat);
    }
}

/// The down key takes back the up key: an entry that was recalled comes back,
/// unless it was the oldest, and a line that was not recalled gives way to an
/// empty one.
pub proof fn law_down_takes_back_up(m: AppModel, i: nat)
    requires
        m.wf(),
        i < m.history.len(),
    ensures
        i > 0 ==> m.recalled(i).recalled_up().recalled_down() == m.recalled(i),
        m.history_idx is None ==> m.recalled_up().recalled_down() == m.with_input(Seq::empty()),
{
}

/// The console after `n` presses of the down key.
pub open spec fn downs(m: AppModel, n: nat) -> AppModel
    decreases n,
{
    if n == 0 {
        m
    } else {
        downs(m, (n - 1) as nat).recalled_down()
    }
}

/// The down key walks the history from the entry that was recalled to the
/// newest, then empties the line and leaves it at that.
pub proof fn law_down_walks_the_history(m: AppModel, i: nat, n: nat)
    requires
        i < m.history.len(),
    ensures
        i + n < m.history.len() ==> downs(m.recalled(i), n) == m.recalled(i + n),
        i + n >= m.history.len() ==> downs(m.recalled(i), n) == (AppModel {
            history_idx: None,
            ..m
        }).with_input(Seq::empty()),
    decreases n,
{
    if n > 0 {
        law_down_walks_the_history(m, i, (n - 1) as nat);
    }
}

/// As many presses of the down key as of the up key leave the history and all
/// else as it was. A line that was not recalled gives way to an empty one, which
/// is not recalled either; without a history nothing happens at all. An entry
/// that was recalled comes back where there are as many before it.
pub proof fn law_downs_take_back_ups(m: AppModel, n: nat)
    requires
        m.wf(),
        n > 0,
    ensures
        m.history.len() == 0 ==> downs(ups(m, n), n) == m,
        m.history.len() > 0 && m.history_idx is None ==> downs(ups(m, n), n) == m.with_input(
            Seq::empty(),
        ),
        m.history_idx matches Some(i) ==> n <= i ==> downs(ups(m, n), n) == m.recalled(i),
{
    if m.history.len() == 0 {
        lemma_no_history(m, n);
    } else {
        match m.history_idx {
            None => {
                law_up_walks_the_history(m, n);
                if n <= m.history.len() {
                    law_down_walks_the_history(m, (m.history.len() - n) as nat, n);
                } else {
                    law_down_walks_the_history(m, 0, n);
                }
            },
            Some(i) => {
                if n <= i {
                    lemma_ups_from(m, i, n);
                    law_down_walks_the_history(m, (i - n) as nat, n);
                }
            },
        }
    }
}

proof fn lemma_no_history(m: AppModel, n: nat)
    requires
        m.history.len() == 0,
    ensures
        ups(m, n) == m,
        downs(m, n) == m,
    decreases n,
{
    if n > 0 {
        lemma_no_history(m, (n - 1) as nat);
    }
}

proof fn lemma_ups_from(m: AppModel, i: nat, n: nat)
    requires
        m.history_idx == Some(i),
        0 < n <= i < m.history.len(),
    ensures
        ups(m, n) == m.recalled((i - n) as nat),
    decreases n,
{
    reveal_with_fuel(ups, 2);
    if n > 1 {
        lemma_ups_from(m, i, (n - 1) as nat);
    }
}

/// A command that is committed is the next to be recalled, and committing it
/// again changes nothing.
pub proof fn law_committed_comes_back(m: AppModel, cmd: Seq<char>)
    requires
        m.wf(),
        !text::blank(cmd),
    ensures
        m.committed(cmd).recalled_up().input == cmd,
        m.committed(cmd).committed(cmd) == m.committed(cmd),
        m.committed(cmd).wf(),
{
}

/// A blank command leaves no trace in the history.
pub proof fn law_blank_is_forgotten(m: AppModel, cmd: Seq<char>)
    requires
        text::blank(cmd),
    ensures
        m.committed(cmd) == m,
{
}

// ---- keys ----

/// Whatever the console is doing, it is left exactly by `q` without modifiers,
/// or when no more events come.
pub proof fn law_only_q_quits(m: AppModel, ev: Option<EventModel>)
    ensures
        m.next(ev).1 is Quit <==> (ev is None || (ev matches Some(EventModel::Key(k))
            && k.quits())),
        m.next(ev).1 is Quit ==> m.next(ev).0 == m,
{
}

/// Nothing is asked of a node, and no usage is told, but by the enter key in
/// the command line.
pub proof fn law_only_enter_asks(m: AppModel, ev: Option<EventModel>)
    ensures
        (m.next(ev).1 is Submit || m.next(ev).1 is Upload || m.next(ev).1 is Notify) ==> (
        ev matches Some(EventModel::Key(k)) && m.reaches_line(k) && k.code == Key::Enter
            && !text::blank(m.input)),
{
}

/// A command that is entered is logged behind the prompt, becomes the newest
/// entry of the history and is asked for at the console's target; the line is
/// empty then, and the up key brings the command back.
pub proof fn law_enter_sends_the_command(m: AppModel, k: KeyEvent)
    requires
        m.wf(),
        m.reaches_line(k),
        k.code == Key::Enter,
        !text::blank(m.input),
    ensures
        ({
            let cmd = text::trimmed(m.input);
            let (n, action) = m.pressed(k);
            &&& n.input.len() == 0 && n.cursor == 0
            &&& n.logs.len() > 0 && n.logs.last() == PROMPT@ + cmd
            &&& n.history.len() > 0 && n.history.last() == cmd
            &&& n.recalled_up().input == cmd
            &&& n.target == m.target && n.status == m.status
            &&& command::meaning(cmd) matches CommandModel::Run(line) ==> line == cmd && action == (
            ActionModel::Submit { target: m.target, command: cmd })
            &&& command::meaning(cmd) matches CommandModel::Upload { job_id, archive_path }
                ==> action == (ActionModel::Upload { target: m.target, job_id, archive_path })
        }),
{
    text::law_trimmed(m.input);
}

/// Entering a blank line changes nothing and asks for nothing.
pub proof fn law_blank_line_is_ignored(m: AppModel, k: KeyEvent)
    requires
        m.reaches_line(k),
        k.code == Key::Enter,
        text::blank(m.input),
    ensures
        m.pressed(k) == (m, ActionModel::Wait),
{
}

/// Two presses of the tab key give the keys back to where they went.
pub proof fn law_tab_twice_returns(m: AppModel)
    ensures
        m.switched().focus != m.focus,
        m.switched().switched().focus == m.focus,
        m.switched().switched() == m.saying(m.switched().switched().message),
{
}

/// While the log takes the keys, no key but tab, escape and end gives the keys
/// back, and none touches the command line or the history.
pub proof fn law_scroll_mode_spares_the_line(m: AppModel, code: Key)
    requires
        m.focus == Focus::Output,
    ensures
        m.output_key(code).focus == Focus::Output || code == Key::Esc || code == Key::End,
        m.output_key(code).input == m.input,
        m.output_key(code).cursor == m.cursor,
        m.output_key(code).history == m.history,
        m.output_key(code).history_idx == m.history_idx,
        m.output_key(code).logs == m.logs,
{
}

/// Clearing the log leaves the command line and the history alone, and the
/// console follows the log again.
pub proof fn law_clearing(m: AppModel)
    ensures
        m.cleared().logs.len() == 0,
        m.cleared().follow_tail,
        m.cleared() == (AppModel {
            logs: Seq::empty(),
            scroll: u16::MAX as nat,
            follow_tail: true,
            message: "cleared output"@,
            ..m
        }),
{
}

// ---- the clock ----

/// A wait for the terminal: what the terminal reported, if anything, and how
/// long after the last tick the wait ended.
pub struct Wait {
    pub input: Option<TerminalInput>,
    pub elapsed: u128,
}

/// What the console is told in the course of `waits`.
pub open spec fn heard_in(waits: Seq<Wait>) -> Seq<EventModel>
    decreases waits.len(),
{
    if waits.len() == 0 {
        Seq::empty()
    } else {
        heard_in(waits.drop_last()) + clock::heard(waits.last().input, waits.last().elapsed)
    }
}

/// The keys and the changes of size that the terminal reported in the course of
/// `waits`.
pub open spec fn reported_in(waits: Seq<Wait>) -> Seq<EventModel>
    decreases waits.len(),
{
    if waits.len() == 0 {
        Seq::empty()
    } else {
        match waits.last().input {
            Some(TerminalInput::Key(k)) => reported_in(waits.drop_last()).push(EventModel::Key(k)),
            Some(TerminalInput::Resize) => reported_in(waits.drop_last()).push(EventModel::Resize),
            _ => reported_in(waits.drop_last()),
        }
    }
}

/// The number of `waits` at the end of which a tick was due.
pub open spec fn due_in(waits: Seq<Wait>) -> nat
    decreases waits.len(),
{
    if waits.len() == 0 {
        0
    } else {
        due_in(waits.drop_last()) + if waits.last().elapsed >= clock::TICK_NANOS {
            1nat
        } else {
            0
        }
    }
}

/// Over any series of waits the console is told of every key and every change of
/// size, in order and once, and besides only of one tick for each that was due.
pub proof fn law_reports_are_heard_in_order(waits: Seq<Wait>)
    ensures
        heard_in(waits).filter(|ev: EventModel| !(ev is Tick)) == reported_in(waits),
        heard_in(waits).filter(|ev: EventModel| ev is Tick).len() == due_in(waits),
        heard_in(waits).len() == reported_in(waits).len() + due_in(waits),
    decreases waits.len(),
{
    let other = |ev: EventModel| !(ev is Tick);
    let tick = |ev: EventModel| ev is Tick;
    reveal(Seq::filter);
    if waits.len() > 0 {
        let fewer = waits.drop_last();
        let last = waits.last();
        law_reports_are_heard_in_order(fewer);
        let now = clock::heard(last.input, last.elapsed);
        let report = clock::reported(last.input);
        let ticks = if last.elapsed >= clock::TICK_NANOS {
            seq![EventModel::Tick]
        } else {
            Seq::empty()
        };
        Seq::filter_distributes_over_add(heard_in(fewer), now, other);
        Seq::filter_distributes_over_add(heard_in(fewer), now, tick);
        Seq::filter_distributes_over_add(report, ticks, other);
        Seq::filter_distributes_over_add(report, ticks, tick);
        lemma_filter_few(report, other);
        lemma_filter_few(report, tick);
        lemma_filter_few(ticks, other);
        lemma_filter_few(ticks, tick);
        assert(heard_in(waits).filter(other) =~= reported_in(waits));
    }
}

/// The filter of one element or none.
proof fn lemma_filter_few(s: Seq<EventModel>, pred: spec_fn(EventModel) -> bool)
    requires
        s.len() <= 1,
    ensures
        s.filter(pred) == if s.len() == 1 && pred(s[0]) {
            s
        } else {
            Seq::empty()
        },
{
    reveal(Seq::filter);
    reveal_with_fuel(Seq::filter, 2);
    if s.len() == 1 {
        assert(s.drop_last() =~= Seq::empty());
        assert(s.filter(pred) =~= if pred(s[0]) {
            s
        } else {
            Seq::empty()
        });
    } else {
        assert(s.filter(pred) =~= Seq::empty());
    }
}

// ---- commands ----

/// A word: characters, and no white space among them.
pub open spec fn is_word(w: Seq<char>) -> bool {
    w.len() > 0 && forall|i: int| 0 <= i < w.len() ==> !text::white(#[trigger] w[i])
}

/// The leading word of a word and white space behind it is the word.
pub proof fn lemma_word_len_of_word(w: Seq<char>, rest: Seq<char>)
    requires
        forall|i: int| 0 <= i < w.len() ==> !text::white(#[trigger] w[i]),
        rest.len() > 0 ==> text::white(rest[0]),
    ensures
        text::word_len(w + rest) == w.len(),
    decreases w.len(),
{
    if w.len() > 0 {
        assert((w + rest)[0] == w[0]);
        assert((w + rest).drop_first() =~= w.drop_first() + rest);
        assert forall|i: int| 0 <= i < w.drop_first().len() implies !text::white(
            #[trigger] w.drop_first()[i],
        ) by {
            assert(!text::white(w[i + 1]));
        }
        lemma_word_len_of_word(w.drop_first(), rest);
    } else {
        assert(w + rest =~= rest);
    }
}

/// Two words with a blank between them split into these words.
pub proof fn law_two_words(a: Seq<char>, b: Seq<char>)
    requires
        is_word(a),
        is_word(b),
    ensures
        text::words(a + seq![' '] + b) == seq![a, b],
{
    let e = Seq::<char>::empty();
    let tail = seq![' '] + b;
    let s = a + seq![' '] + b;
    assert(s =~= a + tail);
    assert(s[0] == a[0]);
    lemma_word_len_of_word(a, tail);
    assert(s.take(a.len() as int) =~= a);
    assert(s.skip(a.len() as int) =~= tail);
    assert(tail[0] == ' ');
    assert(tail.drop_first() =~= b);
    assert(!text::white(b[0]));
    assert(text::trim_start(b) == b);
    assert(text::trim_start(tail) == b);
    assert(b + e =~= b);
    lemma_word_len_of_word(b, e);
    assert(b.take(b.len() as int) =~= b);
    assert(b.skip(b.len() as int) =~= e);
    assert(text::trim_start(e) == e);
    assert(text::words(e) =~= Seq::<Seq<char>>::empty());
    assert(text::words(tail) =~= seq![b]);
    assert(text::words(s) =~= seq![a, b]);
}

/// The words of a text are words.
pub proof fn law_words_are_words(s: Seq<char>)
    ensures
        forall|i: int| 0 <= i < text::words(s).len() ==> is_word(#[trigger] text::words(s)[i]),
    decreases s.len(),
{
    let t = text::trim_start(s);
    text::lemma_trim_start(s);
    if t.len() > 0 {
        text::lemma_word_len(t);
        let n = text::word_len(t) as int;
        let head = t.take(n);
        law_words_are_words(t.skip(n));
        assert(is_word(head)) by {
            assert forall|i: int| 0 <= i < head.len() implies !text::white(#[trigger] head[i]) by {
                assert(head[i] == t[i]);
            }
        }
        let ws = text::words(s);
        assert forall|i: int| 0 <= i < ws.len() implies is_word(#[trigger] ws[i]) by {
            if i > 0 {
                assert(ws[i] == text::words(t.skip(n))[i - 1]);
            }
        }
    }
}

/// A job that is uploaded for has a name, and the archive a path, and neither
/// holds white space.
pub proof fn law_uploads_are_named(line: Seq<char>)
    ensures
        command::meaning(line) matches CommandModel::Upload { job_id, archive_path } ==> is_word(
            job_id,
        ) && is_word(archive_path) && !text::blank(job_id),
{
    if let Some(rest) = text::after_prefix(line, "upload "@) {
        law_words_are_words(rest);
        if text::words(rest).len() == 2 {
            let job_id = text::words(rest)[0];
            assert(is_word(job_id) && is_word(text::words(rest)[1]));
            assert(!text::white(job_id[0]));
        }
    }
}

/// `upload`, a job and a path, with blanks between them, are an upload of that
/// path for that job.
pub proof fn law_upload_is_understood(job_id: Seq<char>, path: Seq<char>)
    requires
        is_word(job_id),
        is_word(path),
    ensures
        command::meaning("upload "@ + job_id + seq![' '] + path) == (CommandModel::Upload {
            job_id,
            archive_path: path,
        }),
{
    let line = "upload "@ + job_id + seq![' '] + path;
    let rest = job_id + seq![' '] + path;
    let n = "upload "@.len() as int;
    assert(line =~= "upload "@ + rest);
    assert(line.subrange(0, n) =~= "upload "@);
    assert(line.skip(n) =~= rest);
    law_two_words(job_id, path);
}

/// A line that does not begin with `upload ` is run as it stands.
pub proof fn law_other_lines_are_run(line: Seq<char>)
    requires
        !("upload "@.is_prefix_of(line)),
    ensures
        command::meaning(line) == CommandModel::Run(line),
{
}

// ---- the node's news ----

/// What a node tells of itself is what the console knows of it afterwards, and
/// a line that came up for the log is logged.
pub proof fn law_news_arrive(state: StateModel, line: Option<Seq<char>>, now: u64, m: AppModel)
    requires
        m.wf(),
    ensures
        ({
            let update = state.told(line);
            let (_, step) = feed::feed_next(
                m.status,
                FeedEventModel::Received { update, now },
            );
            let (n, _) = m.next(step.report);
            &&& step.next == FeedAction::Read
            &&& n.status.connected && n.status.last_seen == Some(now)
            &&& n.status.node_name == state.node_name
            &&& n.status.cpu_usage == state.cpu_usage
            &&& n.status.free_ram_bytes == state.free_ram_bytes
            &&& state.current_task matches Some(task) ==> n.status.current_task == task
            &&& state.current_task is None ==> n.status.current_task.len() == 0
            &&& line matches Some(l) ==> l.len() > 0 ==> n.logs == app::last_lines(m.logs.push(l))
            &&& (line is None || line->0.len() == 0) ==> n.logs == m.logs
        }),
{
}

/// A node whose task has ended tells of no task, and the console shows it as
/// idle.
pub proof fn law_finished_node_is_idle(
    state: StateModel,
    task: Option<Seq<char>>,
    line: Option<Seq<char>>,
    now: u64,
    m: AppModel,
    cpu: Seq<char>,
    ram: Seq<char>,
)
    requires
        m.status == feed::seen(state.running(task).running(None).told(line), now),
    ensures
        state.running(task).running(None) == state.running(None),
        m.status.current_task.len() == 0,
        ({
            let shown = m.status_line(cpu, ram);
            shown.len() >= "idle"@.len() && shown.skip(shown.len() - "idle"@.len()) == "idle"@
        }),
{
    let shown = m.status_line(cpu, ram);
    assert(shown.skip(shown.len() - "idle"@.len()) =~= "idle"@);
}

/// The event says that the node was lost.
pub open spec fn is_loss(ev: FeedEventModel) -> bool {
    ev is ConnectFailed || ev is StreamFailed || ev is ReceiveFailed
}

/// Whatever breaks the stream, the feed rests and then connects again; the
/// console is told that the node is gone, but for a stream that simply ended.
pub proof fn law_feed_starts_over(status: NodeStatusModel, ev: FeedEventModel)
    requires
        is_loss(ev) || ev is StreamEnded,
    ensures
        ({
            let (after, step) = feed::feed_next(status, ev);
            &&& step.next == (FeedAction::Rest { seconds: feed::RETRY_SECONDS })
            &&& feed::feed_next(after, FeedEventModel::Rested).1.next == FeedAction::Connect
            &&& is_loss(ev) ==> (step.report matches Some(EventModel::StatusUpdate(told, line))
                && !told.connected && told == NodeStatusModel::unknown() && line is Some)
            &&& ev is StreamEnded ==> step.report is None && after == status
        }),
{
}

/// What the console is told of the node is what the feed knows of it.
pub proof fn law_feed_reports_what_it_knows(status: NodeStatusModel, ev: FeedEventModel)
    ensures
        feed::feed_next(status, ev).1.report matches Some(report) ==> (
        report matches EventModel::StatusUpdate(told, _) && told == feed::feed_next(status, ev).0),
        feed::feed_next(status, ev).1.report is None ==> feed::feed_next(status, ev).0 == status,
{
}

// ---- the status streams ----

/// What happens to a node's log and to the streams that tell of it.
pub enum Happening {
    /// A line is logged: it joins the queue.
    Logged(Seq<char>),
    /// A stream is opened.
    Opened,
    /// A stream reads the node's state.
    Read { stream: int, state: StateModel },
    /// A stream takes the line at the head of the queue.
    Took { stream: int },
    /// A stream has handed over its news.
    Sent { stream: int },
    /// A stream finds nobody to hand its news to.
    Gone { stream: int },
}

/// News that a stream has made up.
pub struct Item {
    pub stream: int,
    pub update: UpdateModel,
}

/// The lines that wait to be told, the streams in the order in which they were
/// opened, and the news that they have made up so far.
pub struct Service {
    pub queue: Seq<Seq<char>>,
    pub streams: Seq<StreamModel>,
    pub items: Seq<Item>,
}

impl Service {
    /// A node that has just been started.
    pub open spec fn started() -> Self {
        Service { queue: Seq::empty(), streams: Seq::empty(), items: Seq::empty() }
    }

    /// The service after `ev` came to a stream; nothing where the stream does
    /// not wait for it.
    pub open spec fn stepped(self, stream: int, ev: StreamEventModel) -> Option<Self> {
        if 0 <= stream < self.streams.len() {
            match self.streams[stream].next(ev) {
                Some((after, action)) => Some(
                    Service {
                        streams: self.streams.update(stream, after),
                        items: match action {
                            StreamActionModel::Send(update) => self.items.push(
                                Item { stream, update },
                            ),
                            _ => self.items,
                        },
                        ..self
                    },
                ),
                None => None,
            }
        } else {
            None
        }
    }

    /// The service after `h`; nothing where it cannot happen. That the queue
    /// hands out its lines in the order in which they came, each to one stream,
    /// and lets a stream wait where there is none, is what a queue is, and taken
    /// as given here; what the streams make of it is not.
    pub open spec fn after(self, h: Happening) -> Option<Self> {
        match h {
            Happening::Logged(line) => Some(Service { queue: self.queue.push(line), ..self }),
            Happening::Opened => Some(
                Service { streams: self.streams.push(StreamModel::Reading), ..self },
            ),
            Happening::Read { stream, state } => self.stepped(
                stream,
                StreamEventModel::Snapshot(state),
            ),
            Happening::Took { stream } => if self.queue.len() == 0 {
                None
            } else {
                Service { queue: self.queue.drop_first(), ..self }.stepped(
                    stream,
                    StreamEventModel::Line(Some(self.queue.first())),
                )
            },
            Happening::Sent { stream } => self.stepped(stream, StreamEventModel::Sent),
            Happening::Gone { stream } => self.stepped(stream, StreamEventModel::Gone),
        }
    }
}

/// The service after `hs` happened in turn; nothing where they cannot.
pub open spec fn served(hs: Seq<Happening>) -> Option<Service>
    decreases hs.len(),
{
    if hs.len() == 0 {
        Some(Service::started())
    } else {
        match served(hs.drop_last()) {
            Some(s) => s.after(hs.last()),
            None => None,
        }
    }
}

/// The lines that were logged in the course of `hs`.
pub open spec fn logged_in(hs: Seq<Happening>) -> Seq<Seq<char>>
    decreases hs.len(),
{
    if hs.len() == 0 {
        Seq::empty()
    } else {
        match hs.last() {
            Happening::Logged(line) => logged_in(hs.drop_last()).push(line),
            _ => logged_in(hs.drop_last()),
        }
    }
}

/// The lines in the given news.
pub open spec fn lines_of(items: Seq<Item>) -> Seq<Seq<char>> {
    Seq::new(items.len(), |p: int| items[p].update.log_line)
}

/// Where the news of `stream` stand among `items`.
pub open spec fn places(items: Seq<Item>, stream: int) -> Seq<int>
    decreases items.len(),
{
    if items.len() == 0 {
        Seq::empty()
    } else if items.last().stream == stream {
        places(items.drop_last(), stream).push(items.len() - 1)
    } else {
        places(items.drop_last(), stream)
    }
}

/// The lines that `stream` has told, in the order of its news.
pub open spec fn told_by(items: Seq<Item>, stream: int) -> Seq<Seq<char>> {
    Seq::new(
        places(items, stream).len(),
        |j: int| items[places(items, stream)[j]].update.log_line,
    )
}

/// Every line that is logged is told once, in the order of the log, or still
/// waits to be told: whatever streams there are and however their steps
/// interleave, the lines of their news, one after the other, and then those in
/// the queue, are the lines that were logged.
pub proof fn law_lines_are_told_once(hs: Seq<Happening>)
    ensures
        served(hs) matches Some(s) ==> logged_in(hs) == lines_of(s.items) + s.queue,
    decreases hs.len(),
{
    if hs.len() == 0 {
        assert(lines_of(Service::started().items) + Service::started().queue =~= logged_in(hs));
    } else if served(hs) is Some {
        law_lines_are_told_once(hs.drop_last());
        let s = served(hs)->0;
        assert(logged_in(hs) =~= lines_of(s.items) + s.queue);
    }
}

/// Without a line there is no news: a stream takes none from an empty queue, and
/// nothing but taking a line makes up news, which hold the one line that was
/// taken and the state that the stream had read before.
pub proof fn law_each_line_makes_one_item(s: Service, h: Happening)
    ensures
        h is Took && s.queue.len() == 0 ==> s.after(h) is None,
        s.after(h) matches Some(after) ==> match h {
            Happening::Took { stream } => {
                &&& s.streams[stream] is Waiting
                &&& after.items == s.items.push(
                    Item {
                        stream,
                        update: s.streams[stream]->Waiting_0.told(Some(s.queue.first())),
                    },
                )
                &&& after.queue == s.queue.drop_first()
            },
            Happening::Logged(line) => after.items == s.items && after.queue == s.queue.push(line),
            _ => after.items == s.items && after.queue == s.queue,
        },
{
}

/// The news, of whatever stream, hold the lines of the log in turn. So each
/// stream tells its lines in the order of the log, no line is told by two of
/// them, and what a stream tells that tells all, as a single one does, is the log
/// from its beginning, without a gap.
pub proof fn law_streams_share_the_log(hs: Seq<Happening>, s: Service, a: int, b: int)
    requires
        served(hs) == Some(s),
    ensures
        s.items.len() <= logged_in(hs).len(),
        forall|p: int|
            0 <= p < s.items.len() ==> (#[trigger] s.items[p]).update.log_line == logged_in(hs)[p],
        forall|j: int|
            0 <= j < told_by(s.items, a).len() ==> 0 <= places(s.items, a)[j] < logged_in(hs).len()
                && #[trigger] told_by(s.items, a)[j] == logged_in(hs)[places(s.items, a)[j]],
        forall|i: int, j: int|
            0 <= i < j < places(s.items, a).len() ==> #[trigger] places(s.items, a)[i]
                < #[trigger] places(s.items, a)[j],
        a != b ==> forall|i: int, j: int|
            0 <= i < places(s.items, a).len() && 0 <= j < places(s.items, b).len()
                ==> #[trigger] places(s.items, a)[i] != #[trigger] places(s.items, b)[j],
        (forall|p: int| 0 <= p < s.items.len() ==> (#[trigger] s.items[p]).stream == a) ==> told_by(
            s.items,
            a,
        ) == logged_in(hs).take(s.items.len() as int),
        s.streams.len() == 1 ==> told_by(s.items, 0) == logged_in(hs).take(s.items.len() as int),
{
    law_lines_are_told_once(hs);
    lemma_places(s.items, a);
    lemma_places(s.items, b);
    assert forall|j: int| 0 <= j < told_by(s.items, a).len() implies 0 <= places(s.items, a)[j]
        < logged_in(hs).len() && #[trigger] told_by(s.items, a)[j] == logged_in(hs)[places(
        s.items,
        a,
    )[j]] by {
        let p = places(s.items, a)[j];
        assert(lines_of(s.items)[p] == logged_in(hs)[p]);
    }
    assert forall|p: int| 0 <= p < s.items.len() implies (#[trigger] s.items[p]).update.log_line
        == logged_in(hs)[p] by {
        assert(lines_of(s.items)[p] == logged_in(hs)[p]);
    }
    assert(logged_in(hs).take(s.items.len() as int) =~= lines_of(s.items));
    if forall|p: int| 0 <= p < s.items.len() ==> (#[trigger] s.items[p]).stream == a {
        lemma_places_of_all(s.items, a);
        assert(told_by(s.items, a) =~= lines_of(s.items));
    }
    if s.streams.len() == 1 {
        lemma_items_of_streams(hs);
        lemma_places_of_all(s.items, 0);
        assert(told_by(s.items, 0) =~= lines_of(s.items));
    }
}

proof fn lemma_places(items: Seq<Item>, stream: int)
    ensures
        forall|j: int|
            0 <= j < places(items, stream).len() ==> 0 <= #[trigger] places(items, stream)[j]
                < items.len() && items[places(items, stream)[j]].stream == stream,
        forall|i: int, j: int|
            0 <= i < j < places(items, stream).len() ==> #[trigger] places(items, stream)[i]
                < #[trigger] places(items, stream)[j],
    decreases items.len(),
{
    if items.len() > 0 {
        let fewer = items.drop_last();
        let ps = places(items, stream);
        lemma_places(fewer, stream);
        assert forall|j: int| 0 <= j < ps.len() implies 0 <= #[trigger] ps[j] < items.len()
            && items[ps[j]].stream == stream by {
            if j < places(fewer, stream).len() {
                let p = places(fewer, stream)[j];
                assert(fewer[p] == items[p]);
            }
        }
        assert forall|i: int, j: int| 0 <= i < j < ps.len() implies #[trigger] ps[i]
            < #[trigger] ps[j] by {
            assert(ps[i] == places(fewer, stream)[i]);
            if j < places(fewer, stream).len() {
                assert(ps[j] == places(fewer, stream)[j]);
            }
        }
    }
}

proof fn lemma_places_of_all(items: Seq<Item>, stream: int)
    requires
        forall|p: int| 0 <= p < items.len() ==> (#[trigger] items[p]).stream == stream,
    ensures
        places(items, stream) == Seq::new(items.len(), |j: int| j),
    decreases items.len(),
{
    if items.len() > 0 {
        lemma_places_of_all(items.drop_last(), stream);
    }
    assert(places(items, stream) =~= Seq::new(items.len(), |j: int| j));
}

proof fn lemma_items_of_streams(hs: Seq<Happening>)
    ensures
        served(hs) matches Some(s) ==> forall|p: int|
            0 <= p < s.items.len() ==> 0 <= (#[trigger] s.items[p]).stream < s.streams.len(),
    decreases hs.len(),
{
    if hs.len() > 0 {
        lemma_items_of_streams(hs.drop_last());
    }
}

// ---- tasks ----

/// A task that is added is found under its id, unless an earlier one has that
/// id; every other lookup gives what it gave before.
pub proof fn law_added_task_is_found(tasks: Seq<Task>, t: Task, id: u64)
    ensures
        task::lookup(tasks, id) is Some ==> task::lookup(tasks.push(t), id) == task::lookup(
            tasks,
            id,
        ),
        task::lookup(tasks, id) is None ==> task::lookup(tasks.push(t), id) == (if t.id == id {
            Some(t)
        } else {
            None
        }),
{
    let more = tasks.push(t);
    if exists|i: int| task::first_at(tasks, id, i) {
        let i = choose|i: int| task::first_at(tasks, id, i);
        assert(more[i] == tasks[i]);
        assert(task::first_at(more, id, i)) by {
            assert forall|j: int| 0 <= j < i implies (#[trigger] more[j]).id != id by {
                assert(tasks[j].id != id);
            }
        }
        task::lemma_lookup(more, id, i);
    } else {
        lemma_absent(tasks, id, tasks.len());
        assert forall|j: int| 0 <= j < tasks.len() implies (#[trigger] more[j]).id != id by {
            assert(tasks[j].id != id);
        }
        if t.id == id {
            assert(task::first_at(more, id, tasks.len() as int));
            task::lemma_lookup(more, id, tasks.len() as int);
        } else {
            task::lemma_lookup(more, id, 0);
        }
    }
}

/// Where no task is the first with an id, none has it.
proof fn lemma_absent(tasks: Seq<Task>, id: u64, n: nat)
    requires
        !exists|i: int| task::first_at(tasks, id, i),
        n <= tasks.len(),
    ensures
        forall|j: int| 0 <= j < n ==> (#[trigger] tasks[j]).id != id,
    decreases n,
{
    if n > 0 {
        lemma_absent(tasks, id, (n - 1) as nat);
        if tasks[n - 1].id == id {
            assert(task::first_at(tasks, id, n - 1));
        }
    }
}

} // verus!
