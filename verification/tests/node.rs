use fluxa::cli::{self, CliOutput};
use fluxa::client;
use fluxa::clock::{self, TerminalInput};
use fluxa::event::{AppEvent, Key, KeyEvent, Modifiers};
use fluxa::feed::{FeedAction, FeedEvent, StatusFeed};
use fluxa::status::NodeStatus;
use fluxa::task::{Task, TaskRepo, TaskService};
use fluxa::upload::{
    job_archive_path, job_extract_dir, RefusalKind, Upload, UploadAction, UploadEvent, UploadSession, UploadStage,
};
use fluxa::wire::{ProjectChunk, StatusUpdate, TaskRequest, TaskSubmitted, UploadAck};
use fluxa::worker::{
    exit_line, failure_line, stderr_line, CurrentState, StatusStream, StreamAction, StreamEvent,
};

#[test]
fn task_ids_are_fresh_random_uuids() {
    let a = client::submit_command("ls".to_string());
    let b = client::submit_command("ls".to_string());
    assert_ne!(a.id, b.id);
    assert_eq!((a.command.as_str(), a.workdir.as_str()), ("ls", "."));
    for _ in 0..200 {
        let id: Vec<char> = client::submit_command(String::new()).id.chars().collect();
        assert_eq!(id.len(), 36);
        for (i, c) in id.iter().enumerate() {
            if [8, 13, 18, 23].contains(&i) {
                assert_eq!(*c, '-');
            } else {
                assert!(c.is_ascii_digit() || ('a'..='f').contains(c));
            }
        }
        assert_eq!(id[14], '4');
        assert!(['8', '9', 'a', 'b'].contains(&id[19]));
    }
}

#[test]
fn requests_and_reports_read_as_expected() {
    let r = client::task_request("7".to_string(), "make".to_string());
    assert_eq!(
        r,
        TaskRequest { id: "7".to_string(), command: "make".to_string(), workdir: ".".to_string() }
    );
    let answer = TaskSubmitted { id: "7".to_string(), accepted: true, message: "Task accepted".to_string() };
    assert_eq!(client::submit_report(&answer), "submitted 7 accepted=true (Task accepted)");
    let ack = UploadAck { job_id: "j".to_string(), ok: false, message: "no".to_string() };
    assert_eq!(client::upload_report(&ack, 70000), "upload job=j ok=false (no) total=70000 bytes");
    assert_eq!(client::submit_failure("e"), "submit failed: e");
    assert_eq!(client::upload_failure("e"), "upload failed: e");
    assert_eq!(client::target(None), "http://127.0.0.1:50051");
    assert_eq!(client::target(Some("http://n:2".to_string())), "http://n:2");
}

#[test]
fn archives_are_cut_into_full_chunks() {
    assert!(client::upload_project("j", &[]).is_empty());
    for (len, count) in [(1usize, 1usize), (65535, 1), (65536, 1), (65537, 2), (131072, 2), (200000, 4)] {
        let data: Vec<u8> = (0..len).map(|i| (i % 251) as u8).collect();
        let chunks = client::upload_project("j", &data);
        assert_eq!(chunks.len(), count);
        for (i, c) in chunks.iter().enumerate() {
            assert_eq!(c.job_id, "j");
            assert!(i == count - 1 || c.data.len() == 65536);
        }
        let joined: Vec<u8> = chunks.into_iter().flat_map(|c| c.data).collect();
        assert_eq!(joined, data);
    }
}

#[test]
fn what_is_sent_is_what_is_stored() {
    let data: Vec<u8> = (0..150000usize).map(|i| (i % 253) as u8).collect();
    let mut session = UploadSession::new();
    let mut file: Vec<u8> = Vec::new();
    let mut created: Vec<String> = Vec::new();
    for chunk in client::upload_project("job-9", &data) {
        let write = session.receive(chunk).unwrap();
        created.extend(write.create);
        file.extend(write.data);
    }
    assert_eq!(created, vec!["/tmp/fluxa/job-9.tar.gz"]);
    assert_eq!(file, data);
    let x = session.finish().unwrap();
    assert_eq!(x.job_id, "job-9");
    assert_eq!(x.extract_dir, "/tmp/fluxa/job-9");
    assert_eq!(x.command, "tar -xzf '/tmp/fluxa/job-9.tar.gz' -C '/tmp/fluxa/job-9'");
    assert_eq!(x.total_bytes, 150000);
    let done = x.conclude(true, "exit status: 0");
    assert_eq!(done.log.unwrap(), "[upload] job=job-9 extracted to /tmp/fluxa/job-9 (150000 bytes)");
    assert_eq!(
        done.ack,
        UploadAck {
            job_id: "job-9".to_string(),
            ok: true,
            message: "uploaded and extracted to /tmp/fluxa/job-9".to_string(),
        }
    );
}

#[test]
fn failed_unpacking_is_answered() {
    let mut session = UploadSession::new();
    session.receive(ProjectChunk { job_id: "j".to_string(), data: vec![1] }).unwrap();
    let done = session.finish().unwrap().conclude(false, "exit status: 2");
    assert_eq!(done.log, None);
    assert!(!done.ack.ok);
    assert_eq!(done.ack.message, "tar failed: exit status: 2");
}

#[test]
fn uploads_without_a_job_are_refused() {
    let mut session = UploadSession::new();
    let e = session.receive(ProjectChunk { job_id: " \t".to_string(), data: vec![1] }).unwrap_err();
    assert_eq!(e.kind, RefusalKind::InvalidArgument);
    assert_eq!(e.message, "job_id is required in first chunk");
    let e = session.finish().unwrap_err();
    assert_eq!(e.kind, RefusalKind::InvalidArgument);
    assert_eq!(e.message, "no chunks received");
}

#[test]
fn later_chunks_do_not_rename_the_job() {
    let mut session = UploadSession::new();
    session.receive(ProjectChunk { job_id: " a ".to_string(), data: vec![1, 2] }).unwrap();
    let w = session.receive(ProjectChunk { job_id: String::new(), data: vec![3] }).unwrap();
    assert_eq!(w.create, None);
    assert_eq!(w.data, vec![3]);
    let x = session.finish().unwrap();
    assert_eq!((x.job_id.as_str(), x.total_bytes), (" a ", 3));
}

#[test]
fn stages_complain_in_their_words() {
    for (stage, message) in [
        (UploadStage::CreateStore, "create /tmp/fluxa failed: e"),
        (UploadStage::Receive, "stream recv error: e"),
        (UploadStage::CreateArchive, "create archive failed: e"),
        (UploadStage::WriteArchive, "write archive failed: e"),
        (UploadStage::CreateExtractDir, "create extract dir failed: e"),
        (UploadStage::RunTar, "tar exec failed: e"),
    ] {
        let r = stage.refusal("e");
        assert_eq!(r.kind, RefusalKind::Internal);
        assert_eq!(r.message, message);
    }
}

#[test]
fn jobs_have_paths_of_their_own() {
    assert_eq!(job_archive_path("42"), "/tmp/fluxa/42.tar.gz");
    assert_eq!(job_extract_dir("42"), "/tmp/fluxa/42");
    assert_ne!(job_archive_path("a"), job_archive_path("b"));
    assert_ne!(job_extract_dir("a"), job_extract_dir("b"));
}

fn request() -> TaskRequest {
    TaskRequest { id: "7".to_string(), command: "make".to_string(), workdir: ".".to_string() }
}

#[test]
fn node_runs_a_task_and_ends_it() {
    let mut s = CurrentState::new("n1".to_string());
    assert_eq!(s.current_task, None);
    s.measure(0x41480000, 1024);
    let answer = s.submit_task(&request());
    assert_eq!(
        answer,
        TaskSubmitted { id: "7".to_string(), accepted: true, message: "Task accepted".to_string() }
    );
    assert_eq!(s.current_task.as_deref(), Some("7: make"));
    let u = s.stream_status(Some("line".to_string()));
    assert_eq!(
        u,
        StatusUpdate {
            node_name: "n1".to_string(),
            cpu_usage: 0x41480000,
            free_ram_bytes: 1024,
            current_task: "7: make".to_string(),
            log_line: "line".to_string(),
        }
    );
    s.finish_task();
    let u = s.stream_status(None);
    assert_eq!((u.current_task.as_str(), u.log_line.as_str()), ("", ""));
    assert_eq!((u.cpu_usage, u.free_ram_bytes), (0x41480000, 1024));
}

#[test]
fn command_output_is_logged() {
    assert_eq!(failure_line("7", "boom"), "task 7 failed: boom");
    assert_eq!(stderr_line("warn"), "[stderr] warn");
    assert_eq!(exit_line("7", Some(0)), "command 7 exited with: exit status: 0");
    assert_eq!(exit_line("7", Some(101)), "command 7 exited with: exit status: 101");
    assert_eq!(exit_line("7", None), "command 7 exited with: exit status: -1");
}

fn reported(report: Option<AppEvent>) -> (NodeStatus, Option<String>) {
    match report {
        Some(AppEvent::StatusUpdate(status, line)) => (status, line),
        _ => panic!("no status was reported"),
    }
}

#[test]
fn news_of_the_node_arrive() {
    let (mut feed, first) = StatusFeed::new();
    assert_eq!(first, FeedAction::Connect);
    let step = feed.step(FeedEvent::Connected { now: 5 });
    assert_eq!(step.next, FeedAction::OpenStream);
    let (status, line) = reported(step.report);
    assert_eq!(status, NodeStatus { connected: true, last_seen: Some(5), ..NodeStatus::default() });
    assert_eq!(line.as_deref(), Some("Connected"));
    let step = feed.step(FeedEvent::StreamOpened);
    assert!(step.report.is_none());
    assert_eq!(step.next, FeedAction::Read);
    let mut node = CurrentState::new("n1".to_string());
    node.submit_task(&request());
    let step = feed.step(FeedEvent::Received { update: node.stream_status(Some("l".to_string())), now: 9 });
    assert_eq!(step.next, FeedAction::Read);
    let (status, line) = reported(step.report);
    assert_eq!(status.node_name, "n1");
    assert_eq!(status.current_task, "7: make");
    assert_eq!((status.connected, status.last_seen), (true, Some(9)));
    assert_eq!(line.as_deref(), Some("l"));
    let step = feed.step(FeedEvent::Received { update: node.stream_status(None), now: 10 });
    assert_eq!(reported(step.report).1, None);
}

#[test]
fn broken_feed_starts_over() {
    let (mut feed, _) = StatusFeed::new();
    for (ev, said) in [
        (FeedEvent::ConnectFailed("e".to_string()), "connect failed: e"),
        (FeedEvent::StreamFailed("e".to_string()), "stream_status failed: e"),
        (FeedEvent::ReceiveFailed("e".to_string()), "Disconnected: e"),
    ] {
        feed.step(FeedEvent::Connected { now: 1 });
        let step = feed.step(ev);
        assert_eq!(step.next, FeedAction::Rest { seconds: 2 });
        let (status, line) = reported(step.report);
        assert_eq!(status, NodeStatus::default());
        assert_eq!(line.as_deref(), Some(said));
    }
    let step = feed.step(FeedEvent::StreamEnded);
    assert!(step.report.is_none());
    assert_eq!(step.next, FeedAction::Rest { seconds: 2 });
    assert_eq!(feed.step(FeedEvent::Rested).next, FeedAction::Connect);
}

#[test]
fn clock_ticks_when_its_time_is_up() {
    assert_eq!(clock::poll_timeout(0), 33_000_000);
    assert_eq!(clock::poll_timeout(30_000_000), 3_000_000);
    assert_eq!(clock::poll_timeout(33_000_000), 0);
    assert_eq!(clock::poll_timeout(u128::MAX), 0);
    assert!(!clock::after_wait(None, 32_999_999).tick);
    assert!(clock::after_wait(None, 33_000_000).tick);
    let k = KeyEvent {
        code: Key::Tab,
        modifiers: Modifiers { shift: false, control: false, alt: false, super_key: false, hyper: false, meta: false },
    };
    let beat = clock::after_wait(Some(TerminalInput::Key(k)), 0);
    assert!(matches!(beat.event, Some(AppEvent::Key(e)) if e == k));
    assert!(matches!(clock::after_wait(Some(TerminalInput::Resize), 0).event, Some(AppEvent::Resize)));
    assert!(clock::after_wait(Some(TerminalInput::Other), 0).event.is_none());
    assert!(clock::after_wait(None, 0).event.is_none());
}

#[test]
fn repository_finds_the_first_task() {
    let mut repo = TaskRepo::new();
    assert!(repo.get(1).is_none());
    repo.add(TaskService::new_task(1, "a", vec![1]));
    repo.add(TaskService::new_task(2, "b", vec![2]));
    repo.add(TaskService::new_task(1, "c", vec![3]));
    assert_eq!(repo.get(1).unwrap().name, "a");
    assert_eq!(repo.get(2).unwrap(), &Task { id: 2, name: "b".to_string(), payload: vec![2] });
    assert!(repo.get(3).is_none());
    let names: Vec<&str> = repo.all().iter().map(|t| t.name.as_str()).collect();
    assert_eq!(names, vec!["a", "b", "c"]);
}

#[test]
fn tasks_need_a_name_and_a_payload() {
    assert!(TaskService::validate_task(&TaskService::new_task(1, "a", vec![0])));
    assert!(!TaskService::validate_task(&TaskService::new_task(1, "", vec![0])));
    assert!(!TaskService::validate_task(&TaskService::new_task(1, "a", vec![])));
}

fn args(words: &[&str]) -> Vec<String> {
    words.iter().map(|w| w.to_string()).collect()
}

#[test]
fn tool_answers_its_arguments() {
    let line = |s: &str| CliOutput::Line(s.to_string());
    assert_eq!(cli::run(&args(&["fluxa-cli"])), line("Usage: fluxa-cli [submit|agent|test-protocol]"));
    assert_eq!(cli::run(&args(&[])), line("Usage: fluxa-cli [submit|agent|test-protocol]"));
    assert_eq!(cli::run(&args(&["fluxa-cli", "submit"])), line("Submitting task..."));
    assert_eq!(cli::run(&args(&["fluxa-cli", "agent", "x"])), line("Starting agent..."));
    assert_eq!(cli::run(&args(&["fluxa-cli", "dance"])), line("Unknown command"));
    assert_eq!(cli::run(&args(&["fluxa-cli", "test-protocol", "x"])), line("Unknown command"));
    assert_eq!(
        cli::run(&args(&["fluxa-cli", "test-protocol"])),
        CliOutput::Protocol {
            task: Task { id: 1, name: "Hello".to_string(), payload: vec![1, 2, 3] },
            valid: true,
        }
    );
}

fn read(job_id: &str, data: &[u8]) -> UploadEvent {
    UploadEvent::Received(ProjectChunk { job_id: job_id.to_string(), data: data.to_vec() })
}

fn go(upload: Upload, event: UploadEvent) -> (Upload, UploadAction) {
    upload.step(event).unwrap()
}

/// An upload that has gone through the given number of stages.
fn upload_after(stages: usize) -> Upload {
    let (mut upload, _) = Upload::new();
    let events = vec![
        UploadEvent::Done,
        read("j", b"ab"),
        UploadEvent::Done,
        UploadEvent::Done,
        UploadEvent::Ended,
        UploadEvent::Done,
    ];
    for event in events.into_iter().take(stages) {
        upload = go(upload, event).0;
    }
    upload
}

#[test]
fn upload_goes_through_its_stages() {
    let (u, action) = Upload::new();
    assert_eq!(action, UploadAction::CreateStore);
    let (u, action) = go(u, UploadEvent::Done);
    assert_eq!(action, UploadAction::Read);
    let (u, action) = go(u, read("j", b"ab"));
    assert_eq!(action, UploadAction::CreateArchive { path: "/tmp/fluxa/j.tar.gz".to_string() });
    let (u, action) = go(u, UploadEvent::Done);
    assert_eq!(action, UploadAction::Write { data: b"ab".to_vec() });
    let (u, action) = go(u, UploadEvent::Done);
    assert_eq!(action, UploadAction::Read);
    let (u, action) = go(u, read("other", b"c"));
    assert_eq!(action, UploadAction::Write { data: b"c".to_vec() });
    let (u, action) = go(u, UploadEvent::Done);
    assert_eq!(action, UploadAction::Read);
    let (u, action) = go(u, UploadEvent::Ended);
    assert_eq!(action, UploadAction::CreateExtractDir { path: "/tmp/fluxa/j".to_string() });
    let (u, action) = go(u, UploadEvent::Done);
    assert_eq!(
        action,
        UploadAction::RunTar { command: "tar -xzf '/tmp/fluxa/j.tar.gz' -C '/tmp/fluxa/j'".to_string() }
    );
    let (u, action) = go(u, UploadEvent::Exited { success: true, status: "exit status: 0".to_string() });
    match action {
        UploadAction::Answer(outcome) => {
            assert_eq!(outcome.log.unwrap(), "[upload] job=j extracted to /tmp/fluxa/j (3 bytes)");
            assert!(outcome.ack.ok);
            assert_eq!(outcome.ack.job_id, "j");
            assert_eq!(outcome.ack.message, "uploaded and extracted to /tmp/fluxa/j");
        }
        other => panic!("{:?}", other),
    }
    assert!(u.step(UploadEvent::Done).is_none());
}

#[test]
fn failed_stage_ends_the_upload() {
    let complaints = [
        "create /tmp/fluxa failed: e",
        "stream recv error: e",
        "create archive failed: e",
        "write archive failed: e",
        "stream recv error: e",
        "create extract dir failed: e",
        "tar exec failed: e",
    ];
    for (stages, complaint) in complaints.into_iter().enumerate() {
        let (over, action) = go(upload_after(stages), UploadEvent::Failed("e".to_string()));
        match action {
            UploadAction::Refuse(refusal) => {
                assert_eq!(refusal.kind, RefusalKind::Internal);
                assert_eq!(refusal.message, complaint);
            }
            other => panic!("{:?}", other),
        }
        assert!(over.step(UploadEvent::Failed("e".to_string())).is_none());
    }
}

#[test]
fn upload_without_a_job_ends_in_a_refusal() {
    for (event, message) in
        [(read(" ", b"x"), "job_id is required in first chunk"), (UploadEvent::Ended, "no chunks received")]
    {
        let (over, action) = go(upload_after(1), event);
        match action {
            UploadAction::Refuse(refusal) => {
                assert_eq!(refusal.kind, RefusalKind::InvalidArgument);
                assert_eq!(refusal.message, message);
            }
            other => panic!("{:?}", other),
        }
        assert!(over.step(UploadEvent::Ended).is_none());
    }
}

#[test]
fn upload_that_does_not_unpack_is_answered() {
    let (_, action) =
        go(upload_after(6), UploadEvent::Exited { success: false, status: "exit status: 2".to_string() });
    match action {
        UploadAction::Answer(outcome) => {
            assert_eq!(outcome.log, None);
            assert!(!outcome.ack.ok);
            assert_eq!(outcome.ack.message, "tar failed: exit status: 2");
        }
        other => panic!("{:?}", other),
    }
}

#[test]
fn stage_cannot_come_to_anything_else() {
    assert!(upload_after(0).step(UploadEvent::Ended).is_none());
    assert!(upload_after(1).step(UploadEvent::Done).is_none());
    assert!(upload_after(2).step(UploadEvent::Ended).is_none());
    assert!(upload_after(3).step(read("j", b"x")).is_none());
    assert!(upload_after(5).step(read("j", b"x")).is_none());
    assert!(upload_after(6).step(UploadEvent::Done).is_none());
    let full = Upload::Receiving(UploadSession { job_id: Some("j".to_string()), total_bytes: usize::MAX });
    assert!(full.step(read("j", b"x")).is_none());
}

#[test]
fn upload_of_a_large_archive_is_written_whole() {
    let data: Vec<u8> = (0..200_000u32).map(|i| (i % 251) as u8).collect();
    let mut chunks = client::upload_project("big", &data).into_iter();
    let mut stored: Vec<u8> = Vec::new();
    let (mut upload, mut action) = Upload::new();
    let mut created = 0;
    loop {
        let event = match action {
            UploadAction::Read => match chunks.next() {
                Some(chunk) => UploadEvent::Received(chunk),
                None => UploadEvent::Ended,
            },
            UploadAction::Write { data } => {
                stored.extend(data);
                UploadEvent::Done
            }
            UploadAction::CreateArchive { .. } => {
                created += 1;
                UploadEvent::Done
            }
            UploadAction::CreateStore => UploadEvent::Done,
            UploadAction::CreateExtractDir { .. } => {
                assert_eq!(stored, data);
                UploadEvent::Done
            }
            UploadAction::RunTar { .. } => UploadEvent::Exited { success: true, status: String::new() },
            UploadAction::Refuse(refusal) => panic!("{:?}", refusal),
            UploadAction::Answer(outcome) => {
                assert_eq!(outcome.log.unwrap(), "[upload] job=big extracted to /tmp/fluxa/big (200000 bytes)");
                break;
            }
        };
        (upload, action) = go(upload, event);
    }
    assert_eq!(created, 1);
}

fn live_stream() -> (StatusStream, StreamAction) {
    let (stream, action) = StatusStream::new();
    assert_eq!(action, StreamAction::ReadState);
    stream.step(StreamEvent::Snapshot(CurrentState::new("n".to_string()))).unwrap()
}

#[test]
fn stream_tells_the_state_it_read_before_the_line() {
    let mut state = CurrentState::new("n".to_string());
    let (stream, _) = StatusStream::new();
    let (stream, action) = stream.step(StreamEvent::Snapshot(state.clone())).unwrap();
    assert_eq!(action, StreamAction::TakeLine);
    state.measure(7, 8);
    let (stream, action) = stream.step(StreamEvent::Line(Some("l".to_string()))).unwrap();
    match action {
        StreamAction::Send(update) => {
            assert_eq!((update.node_name.as_str(), update.cpu_usage, update.free_ram_bytes), ("n", 0, 0));
            assert_eq!((update.current_task.as_str(), update.log_line.as_str()), ("", "l"));
        }
        other => panic!("{:?}", other),
    }
    let (stream, action) = stream.step(StreamEvent::Sent).unwrap();
    assert_eq!(action, StreamAction::ReadState);
    let (stream, _) = stream.step(StreamEvent::Snapshot(state)).unwrap();
    let (stream, action) = stream.step(StreamEvent::Line(None)).unwrap();
    match action {
        StreamAction::Send(update) => {
            assert_eq!((update.cpu_usage, update.free_ram_bytes, update.log_line.as_str()), (7, 8, ""));
        }
        other => panic!("{:?}", other),
    }
    let (stream, action) = stream.step(StreamEvent::Gone).unwrap();
    assert_eq!(action, StreamAction::Stop);
    assert!(stream.step(StreamEvent::Sent).is_none());
}

#[test]
fn stream_waits_for_one_thing_at_a_time() {
    assert!(StatusStream::new().0.step(StreamEvent::Line(None)).is_none());
    assert!(StatusStream::new().0.step(StreamEvent::Gone).is_none());
    assert!(live_stream().0.step(StreamEvent::Sent).is_none());
    let (sending, _) = live_stream().0.step(StreamEvent::Line(None)).unwrap();
    assert!(sending.step(StreamEvent::Line(None)).is_none());
}

#[test]
fn streams_share_the_log() {
    let mut queue: std::collections::VecDeque<String> = (0..9).map(|i| i.to_string()).collect();
    let mut told: Vec<Vec<String>> = vec![Vec::new(), Vec::new()];
    let mut streams: Vec<Option<(StatusStream, StreamAction)>> =
        vec![Some(StatusStream::new()), Some(StatusStream::new())];
    for turn in 0..200 {
        let k = if turn % 5 < 3 { 0 } else { 1 };
        let (stream, action) = streams[k].take().unwrap();
        let event = match action {
            StreamAction::ReadState => StreamEvent::Snapshot(CurrentState::new("n".to_string())),
            StreamAction::TakeLine => match queue.pop_front() {
                Some(line) => StreamEvent::Line(Some(line)),
                None => {
                    streams[k] = Some((stream, StreamAction::TakeLine));
                    continue;
                }
            },
            StreamAction::Send(update) => {
                told[k].push(update.log_line);
                StreamEvent::Sent
            }
            StreamAction::Stop => panic!("no stream has ended"),
        };
        streams[k] = stream.step(event);
    }
    assert!(told.iter().all(|lines| !lines.is_empty() && lines.windows(2).all(|w| w[0] < w[1])));
    let mut all = told.concat();
    all.sort();
    assert_eq!(all, (0..9).map(|i| i.to_string()).collect::<Vec<_>>());
}

#[test]
fn upload_depends_on_the_first_name_and_the_data() {
    let answer = |cuts: Vec<(&str, &[u8])>| {
        let mut stored: Vec<u8> = Vec::new();
        let mut upload = upload_after(1);
        for (job, data) in cuts {
            let (next, mut action) = go(upload, read(job, data));
            upload = next;
            while action != UploadAction::Read {
                if let UploadAction::Write { data } = &action {
                    stored.extend(data);
                }
                (upload, action) = go(upload, UploadEvent::Done);
            }
        }
        let (upload, _) = go(upload, UploadEvent::Ended);
        let (upload, _) = go(upload, UploadEvent::Done);
        let (_, action) = go(upload, UploadEvent::Exited { success: true, status: String::new() });
        (stored, action)
    };
    let one = answer(vec![("j", b"abcdef")]);
    assert_eq!(one.0, b"abcdef");
    assert_eq!(one, answer(vec![("j", b"ab"), ("", b""), ("k", b"cde"), ("j", b"f")]));
    assert_ne!(one.1, answer(vec![("k", b"abcdef")]).1);
}

#[test]
fn reports_are_heard_in_order() {
    let modifiers =
        Modifiers { shift: false, control: false, alt: false, super_key: false, hyper: false, meta: false };
    let key = |c: char| TerminalInput::Key(KeyEvent { code: Key::Char(c), modifiers });
    let waits = [
        (Some(key('a')), 0),
        (None, 33_000_000),
        (Some(TerminalInput::Other), 5),
        (Some(TerminalInput::Resize), 40_000_000),
        (Some(key('b')), 6),
    ];
    let mut heard = String::new();
    for (input, elapsed) in waits {
        let beat = clock::after_wait(input, elapsed);
        match beat.event {
            Some(AppEvent::Key(KeyEvent { code: Key::Char(c), .. })) => heard.push(c),
            Some(AppEvent::Resize) => heard.push('R'),
            None => {}
            other => panic!("{:?}", other),
        }
        if beat.tick {
            heard.push('T');
        }
    }
    assert_eq!(heard, "aTRTb");
}
