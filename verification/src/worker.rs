//! A node's own state, what it tells of it, and what it logs of the commands
//! it runs.
use vstd::prelude::*;

use crate::text;
use crate::wire::StatusUpdate;
use crate::wire::TaskRequest;
use crate::wire::TaskSubmitted;
use crate::wire::UpdateModel;

verus! {

/// The state of the node.
#[derive(Debug, PartialEq, Eq)]
pub struct CurrentState {
    pub node_name: String,
    /// The processor load in percent: the bits of a single-precision float.
    pub cpu_usage: u32,
    pub free_ram_bytes: u64,
    /// What the node runs.
    pub current_task: Option<String>,
}

/// The value of a `CurrentState`.
#[verifier::ext_equal]
pub struct StateModel {
    pub node_name: Seq<char>,
    pub cpu_usage: u32,
    pub free_ram_bytes: u64,
    pub current_task: Option<Seq<char>>,
}

impl View for CurrentState {
    type V = StateModel;

    open spec fn view(&self) -> StateModel {
        StateModel {
            node_name: self.node_name@,
            cpu_usage: self.cpu_usage,
            free_ram_bytes: self.free_ram_bytes,
            current_task: match self.current_task {
                Some(task) => Some(task@),
                None => None,
            },
        }
    }
}

impl Clone for CurrentState {
    fn clone(&self) -> (r: Self)
        ensures
            r@ == self@,
    {
        CurrentState {
            node_name: self.node_name.clone(),
            cpu_usage: self.cpu_usage,
            free_ram_bytes: self.free_ram_bytes,
            current_task: match &self.current_task {
                Some(task) => Some(task.clone()),
                None => None,
            },
        }
    }
}

/// How a task is named while it runs.
pub open spec fn task_label(id: Seq<char>, command: Seq<char>) -> Seq<char> {
    id + ": "@ + command
}

impl StateModel {
    /// A node that has just been started.
    pub open spec fn started(node_name: Seq<char>) -> Self {
        StateModel { node_name, cpu_usage: 0, free_ram_bytes: 0, current_task: None }
    }

    /// The node while it runs `task`, or nothing.
    pub open spec fn running(self, task: Option<Seq<char>>) -> Self {
        StateModel { current_task: task, ..self }
    }

    /// The news of the node, with `line` for the log.
    pub open spec fn told(self, line: Option<Seq<char>>) -> UpdateModel {
        UpdateModel {
            node_name: self.node_name,
            cpu_usage: self.cpu_usage,
            free_ram_bytes: self.free_ram_bytes,
            current_task: match self.current_task {
                Some(task) => task,
                None => Seq::empty(),
            },
            log_line: match line {
                Some(l) => l,
                None => Seq::empty(),
            },
        }
    }
}

impl CurrentState {
    /// The state of a node that has just been started.
    pub fn new(node_name: String) -> (r: Self)
        ensures
            r@ == StateModel::started(node_name@),
    {
        CurrentState { node_name, cpu_usage: 0, free_ram_bytes: 0, current_task: None }
    }

    /// Takes in a measurement of the load and of the free memory.
    pub fn measure(&mut self, cpu_usage: u32, free_ram_bytes: u64)
        ensures
            final(self)@ == (StateModel { cpu_usage, free_ram_bytes, ..old(self)@ }),
    {
        self.cpu_usage = cpu_usage;
        self.free_ram_bytes = free_ram_bytes;
    }

    /// Takes on the requested task and answers.
    pub fn submit_task(&mut self, request: &TaskRequest) -> (r: TaskSubmitted)
        ensures
            final(self)@ == old(self)@.running(Some(task_label(request.id@, request.command@))),
            r.id@ == request.id@,
            r.accepted,
            r.message@ == "Task accepted"@,
    {
        let mut label = request.id.clone();
        label.append(": ");
        label.append(request.command.as_str());
        self.current_task = Some(label);
        TaskSubmitted {
            id: request.id.clone(),
            accepted: true,
            message: "Task accepted".to_owned(),
        }
    }

    /// The task has ended.
    pub fn finish_task(&mut self)
        ensures
            final(self)@ == old(self)@.running(None),
    {
        self.current_task = None;
    }

    /// The news to send, with the line that came up for the log, if any.
    pub fn stream_status(&self, line: Option<String>) -> (r: StatusUpdate)
        ensures
            r@ == self@.told(
                match line {
                    Some(l) => Some(l@),
                    None => None,
                },
            ),
    {
        StatusUpdate {
            node_name: self.node_name.clone(),
            cpu_usage: self.cpu_usage,
            free_ram_bytes: self.free_ram_bytes,
            current_task: match &self.current_task {
                Some(task) => task.clone(),
                None => String::new(),
            },
            log_line: match line {
                Some(l) => l,
                None => String::new(),
            },
        }
    }
}

/// What came of the last thing a status stream asked for.
#[derive(Debug)]
pub enum StreamEvent {
    /// The node's state was read.
    Snapshot(CurrentState),
    /// A line came up for the log; none where there will be no more.
    Line(Option<String>),
    /// The news were handed over.
    Sent,
    /// There is nobody any more to hand the news to.
    Gone,
}

/// The value of a `StreamEvent`.
pub enum StreamEventModel {
    Snapshot(StateModel),
    Line(Option<Seq<char>>),
    Sent,
    Gone,
}

impl View for StreamEvent {
    type V = StreamEventModel;

    open spec fn view(&self) -> StreamEventModel {
        match self {
            StreamEvent::Snapshot(state) => StreamEventModel::Snapshot(state@),
            StreamEvent::Line(line) => StreamEventModel::Line(
                match line {
                    Some(l) => Some(l@),
                    None => None,
                },
            ),
            StreamEvent::Sent => StreamEventModel::Sent,
            StreamEvent::Gone => StreamEventModel::Gone,
        }
    }
}

/// What a status stream asks for next.
#[derive(Debug, PartialEq, Eq)]
pub enum StreamAction {
    /// Read the node's state.
    ReadState,
    /// Wait for a line and take it from the log's queue.
    TakeLine,
    /// Hand over the news.
    Send(StatusUpdate),
    /// The stream is over.
    Stop,
}

/// The value of a `StreamAction`.
#[verifier::ext_equal]
pub enum StreamActionModel {
    ReadState,
    TakeLine,
    Send(UpdateModel),
    Stop,
}

impl View for StreamAction {
    type V = StreamActionModel;

    open spec fn view(&self) -> StreamActionModel {
        match self {
            StreamAction::ReadState => StreamActionModel::ReadState,
            StreamAction::TakeLine => StreamActionModel::TakeLine,
            StreamAction::Send(update) => StreamActionModel::Send(update@),
            StreamAction::Stop => StreamActionModel::Stop,
        }
    }
}

/// A stream of news of the node: what it waits for.
#[derive(Debug)]
pub enum StatusStream {
    /// The node's state is being read.
    Reading,
    /// A line is awaited, to be told together with this state.
    Waiting(CurrentState),
    /// News are being handed over.
    Sending,
    Over,
}

/// The value of a `StatusStream`.
#[verifier::ext_equal]
pub enum StreamModel {
    Reading,
    Waiting(StateModel),
    Sending,
    Over,
}

impl View for StatusStream {
    type V = StreamModel;

    open spec fn view(&self) -> StreamModel {
        match self {
            StatusStream::Reading => StreamModel::Reading,
            StatusStream::Waiting(state) => StreamModel::Waiting(state@),
            StatusStream::Sending => StreamModel::Sending,
            StatusStream::Over => StreamModel::Over,
        }
    }
}

impl StreamModel {
    /// The stream after `ev`, and what it asks for next: the state is read, then
    /// a line awaited, then the two are told, until nobody is there to be told.
    /// Nothing where the stream does not wait for `ev`.
    pub open spec fn next(self, ev: StreamEventModel) -> Option<(Self, StreamActionModel)> {
        match (self, ev) {
            (StreamModel::Reading, StreamEventModel::Snapshot(state)) => Some(
                (StreamModel::Waiting(state), StreamActionModel::TakeLine),
            ),
            (StreamModel::Waiting(state), StreamEventModel::Line(line)) => Some(
                (StreamModel::Sending, StreamActionModel::Send(state.told(line))),
            ),
            (StreamModel::Sending, StreamEventModel::Sent) => Some(
                (StreamModel::Reading, StreamActionModel::ReadState),
            ),
            (StreamModel::Sending, StreamEventModel::Gone) => Some(
                (StreamModel::Over, StreamActionModel::Stop),
            ),
            _ => None,
        }
    }
}

impl StatusStream {
    /// A stream begins by reading the node's state.
    pub fn new() -> (r: (Self, StreamAction))
        ensures
            r.0@ == StreamModel::Reading,
            r.1@ == StreamActionModel::ReadState,
    {
        (StatusStream::Reading, StreamAction::ReadState)
    }

    /// Takes in what came of the last step and says what is next.
    pub fn step(self, ev: StreamEvent) -> (r: Option<(StatusStream, StreamAction)>)
        ensures
            match r {
                Some((stream, action)) => self@.next(ev@) == Some((stream@, action@)),
                None => self@.next(ev@) is None,
            },
    {
        match (self, ev) {
            (StatusStream::Reading, StreamEvent::Snapshot(state)) => Some(
                (StatusStream::Waiting(state), StreamAction::TakeLine),
            ),
            (StatusStream::Waiting(state), StreamEvent::Line(line)) => Some(
                (StatusStream::Sending, StreamAction::Send(state.stream_status(line))),
            ),
            (StatusStream::Sending, StreamEvent::Sent) => Some(
                (StatusStream::Reading, StreamAction::ReadState),
            ),
            (StatusStream::Sending, StreamEvent::Gone) => Some(
                (StatusStream::Over, StreamAction::Stop),
            ),
            _ => None,
        }
    }
}

/// What is logged of a task that could not be run.
pub fn failure_line(id: &str, why: &str) -> (r: String)
    ensures
        r@ == "task "@ + id@ + " failed: "@ + why@,
{
    let mut r = "task ".to_owned();
    r.append(id);
    r.append(" failed: ");
    r.append(why);
    r
}

/// What is logged of a line that a command wrote to its error output.
pub fn stderr_line(line: &str) -> (r: String)
    ensures
        r@ == "[stderr] "@ + line@,
{
    let mut r = "[stderr] ".to_owned();
    r.append(line);
    r
}

/// The exit code that is shown; -1 for a command that left none.
pub open spec fn shown_code(code: Option<i32>) -> int {
    match code {
        Some(c) => c as int,
        None => -1,
    }
}

/// What is logged of a command that has ended.
pub fn exit_line(id: &str, code: Option<i32>) -> (r: String)
    ensures
        r@ == "command "@ + id@ + " exited with: exit status: "@ + text::signed_decimal(
            shown_code(code),
        ),
        code matches Some(c) ==> r@ == "command "@ + id@ + " exited with: exit status: "@
            + text::signed_decimal(c as int),
        code is None ==> r@ == "command "@ + id@ + " exited with: exit status: "@
            + text::signed_decimal(-1),
{
    let shown = match code {
        Some(c) => c,
        None => -1,
    };
    let mut r = "command ".to_owned();
    r.append(id);
    r.append(" exited with: exit status: ");
    r.append(text::signed_decimal_text(shown).as_str());
    r
}

} // verus!
