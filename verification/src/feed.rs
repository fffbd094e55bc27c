//! The stream of news from a node: connect, read until it breaks, rest, and
//! start again.
use vstd::prelude::*;

use crate::event::AppEvent;
use crate::event::EventModel;
use crate::status::NodeStatus;
use crate::status::NodeStatusModel;
use crate::wire::StatusUpdate;
use crate::wire::UpdateModel;

verus! {

/// How long to rest before connecting again.
pub const RETRY_SECONDS: u64 = 2;

/// What came of the last thing the feed asked for. Times are milliseconds on
/// the console's clock.
#[derive(Debug)]
pub enum FeedEvent {
    Connected { now: u64 },
    ConnectFailed(String),
    StreamOpened,
    StreamFailed(String),
    Received { update: StatusUpdate, now: u64 },
    ReceiveFailed(String),
    StreamEnded,
    Rested,
}

/// The value of a `FeedEvent`.
pub enum FeedEventModel {
    Connected { now: u64 },
    ConnectFailed(Seq<char>),
    StreamOpened,
    StreamFailed(Seq<char>),
    Received { update: UpdateModel, now: u64 },
    ReceiveFailed(Seq<char>),
    StreamEnded,
    Rested,
}

impl View for FeedEvent {
    type V = FeedEventModel;

    open spec fn view(&self) -> FeedEventModel {
        match self {
            FeedEvent::Connected { now } => FeedEventModel::Connected { now: *now },
            FeedEvent::ConnectFailed(e) => FeedEventModel::ConnectFailed(e@),
            FeedEvent::StreamOpened => FeedEventModel::StreamOpened,
            FeedEvent::StreamFailed(e) => FeedEventModel::StreamFailed(e@),
            FeedEvent::Received { update, now } => FeedEventModel::Received {
                update: update@,
                now: *now,
            },
            FeedEvent::ReceiveFailed(e) => FeedEventModel::ReceiveFailed(e@),
            FeedEvent::StreamEnded => FeedEventModel::StreamEnded,
            FeedEvent::Rested => FeedEventModel::Rested,
        }
    }
}

/// What the feed asks for next.
#[derive(Clone, Copy, Debug, PartialEq, Eq, Structural)]
pub enum FeedAction {
    Connect,
    OpenStream,
    Read,
    Rest { seconds: u64 },
}

/// A step of the feed: what the console is told, and what to do next.
#[derive(Debug)]
pub struct FeedStep {
    pub report: Option<AppEvent>,
    pub next: FeedAction,
}

/// The value of a `FeedStep`.
pub struct FeedStepModel {
    pub report: Option<EventModel>,
    pub next: FeedAction,
}

impl View for FeedStep {
    type V = FeedStepModel;

    open spec fn view(&self) -> FeedStepModel {
        FeedStepModel {
            report: match self.report {
                Some(ev) => Some(ev@),
                None => None,
            },
            next: self.next,
        }
    }
}

/// What is known of the node, as last reported.
#[derive(Debug)]
pub struct StatusFeed {
    pub status: NodeStatus,
}

/// A node just connected to, of which no news has come yet.
pub open spec fn greeted(now: u64) -> NodeStatusModel {
    NodeStatusModel { connected: true, last_seen: Some(now), ..NodeStatusModel::unknown() }
}

/// A node as its news of the time `now` shows it.
pub open spec fn seen(update: UpdateModel, now: u64) -> NodeStatusModel {
    NodeStatusModel {
        node_name: update.node_name,
        cpu_usage: update.cpu_usage,
        free_ram_bytes: update.free_ram_bytes,
        current_task: update.current_task,
        connected: true,
        last_seen: Some(now),
    }
}

/// The line that comes with the news, if there is one.
pub open spec fn news_line(update: UpdateModel) -> Option<Seq<char>> {
    if update.log_line.len() == 0 {
        None
    } else {
        Some(update.log_line)
    }
}

/// The node is lost: the console is told why, and the feed rests.
pub open spec fn lost(why: Seq<char>) -> (NodeStatusModel, FeedStepModel) {
    (
        NodeStatusModel::unknown(),
        FeedStepModel {
            report: Some(EventModel::StatusUpdate(NodeStatusModel::unknown(), Some(why))),
            next: FeedAction::Rest { seconds: RETRY_SECONDS },
        },
    )
}

/// What is known of the node after `ev`, and the step that follows.
pub open spec fn feed_next(status: NodeStatusModel, ev: FeedEventModel) -> (
    NodeStatusModel,
    FeedStepModel,
) {
    match ev {
        FeedEventModel::Connected { now } => (
            greeted(now),
            FeedStepModel {
                report: Some(EventModel::StatusUpdate(greeted(now), Some("Connected"@))),
                next: FeedAction::OpenStream,
            },
        ),
        FeedEventModel::ConnectFailed(e) => lost("connect failed: "@ + e),
        FeedEventModel::StreamOpened => (
            status,
            FeedStepModel { report: None, next: FeedAction::Read },
        ),
        FeedEventModel::StreamFailed(e) => lost("stream_status failed: "@ + e),
        FeedEventModel::Received { update, now } => (
            seen(update, now),
            FeedStepModel {
                report: Some(EventModel::StatusUpdate(seen(update, now), news_line(update))),
                next: FeedAction::Read,
            },
        ),
        FeedEventModel::ReceiveFailed(e) => lost("Disconnected: "@ + e),
        FeedEventModel::StreamEnded => (
            status,
            FeedStepModel { report: None, next: FeedAction::Rest { seconds: RETRY_SECONDS } },
        ),
        FeedEventModel::Rested => (
            status,
            FeedStepModel { report: None, next: FeedAction::Connect },
        ),
    }
}

impl StatusFeed {
    /// A feed that knows nothing yet. It begins by connecting.
    pub fn new() -> (r: (Self, FeedAction))
        ensures
            r.0.status@ == NodeStatusModel::unknown(),
            r.1 == FeedAction::Connect,
    {
        (StatusFeed { status: NodeStatus::default() }, FeedAction::Connect)
    }

    /// Takes in what came of the last step and says what is next.
    pub fn step(&mut self, ev: FeedEvent) -> (r: FeedStep)
        ensures
            (final(self).status@, r@) == feed_next(old(self).status@, ev@),
    {
        match ev {
            FeedEvent::Connected { now } => {
                self.status = NodeStatus::default();
                self.status.connected = true;
                self.status.last_seen = Some(now);
                FeedStep {
                    report: Some(
                        AppEvent::StatusUpdate(self.status.clone(), Some("Connected".to_owned())),
                    ),
                    next: FeedAction::OpenStream,
                }
            },
            FeedEvent::ConnectFailed(e) => self.lose("connect failed: ", e.as_str()),
            FeedEvent::StreamOpened => FeedStep { report: None, next: FeedAction::Read },
            FeedEvent::StreamFailed(e) => self.lose("stream_status failed: ", e.as_str()),
            FeedEvent::Received { update, now } => {
                self.status.node_name = update.node_name;
                self.status.cpu_usage = update.cpu_usage;
                self.status.free_ram_bytes = update.free_ram_bytes;
                self.status.current_task = update.current_task;
                self.status.connected = true;
                self.status.last_seen = Some(now);
                let line = if update.log_line.as_str().is_empty() {
                    None
                } else {
                    Some(update.log_line)
                };
                FeedStep {
                    report: Some(AppEvent::StatusUpdate(self.status.clone(), line)),
                    next: FeedAction::Read,
                }
            },
            FeedEvent::ReceiveFailed(e) => self.lose("Disconnected: ", e.as_str()),
            FeedEvent::StreamEnded => FeedStep {
                report: None,
                next: FeedAction::Rest { seconds: RETRY_SECONDS },
            },
            FeedEvent::Rested => FeedStep { report: None, next: FeedAction::Connect },
        }
    }

    fn lose(&mut self, what: &str, why: &str) -> (r: FeedStep)
        ensures
            (final(self).status@, r@) == lost(what@ + why@),
    {
        self.status = NodeStatus::default();
        let mut line = what.to_owned();
        line.append(why);
        FeedStep {
            report: Some(AppEvent::StatusUpdate(NodeStatus::default(), Some(line))),
            next: FeedAction::Rest { seconds: RETRY_SECONDS },
        }
    }
}

} // verus!
